use auto_paste::idlist::{parse_id_list, LIMIT};

fn by_std(text: &str) -> Vec<i32> {
    text.split(',').filter_map(|piece| piece.parse().ok()).collect()
}

#[test]
fn ids_are_read_in_order() {
    assert_eq!(parse_id_list("1,2,3"), vec![1, 2, 3]);
    assert_eq!(parse_id_list("3,1,2"), vec![3, 1, 2]);
    assert_eq!(parse_id_list("42"), vec![42]);
}

#[test]
fn repeated_ids_are_kept() {
    assert_eq!(parse_id_list("2,2,1,2"), vec![2, 2, 1, 2]);
}

#[test]
fn an_empty_text_holds_no_id() {
    assert_eq!(parse_id_list(""), Vec::<i32>::new());
    assert_eq!(parse_id_list(","), Vec::<i32>::new());
    assert_eq!(parse_id_list(",,,"), Vec::<i32>::new());
}

#[test]
fn empty_pieces_are_passed_over() {
    assert_eq!(parse_id_list("1,,2"), vec![1, 2]);
    assert_eq!(parse_id_list(",1,2"), vec![1, 2]);
    assert_eq!(parse_id_list("1,2,"), vec![1, 2]);
}

#[test]
fn pieces_that_are_no_number_are_passed_over() {
    assert_eq!(parse_id_list("1,x,2"), vec![1, 2]);
    assert_eq!(parse_id_list("1,2x,3"), vec![1, 3]);
    assert_eq!(parse_id_list("1,x2,3"), vec![1, 3]);
    assert_eq!(parse_id_list("a,b,c"), Vec::<i32>::new());
    assert_eq!(parse_id_list("1.5,2"), vec![2]);
    assert_eq!(parse_id_list("0x10,7"), vec![7]);
    assert_eq!(parse_id_list("1_000,7"), vec![7]);
}

#[test]
fn blanks_are_not_trimmed() {
    assert_eq!(parse_id_list(" 1,2"), vec![2]);
    assert_eq!(parse_id_list("1 ,2"), vec![2]);
    assert_eq!(parse_id_list("1, 2"), vec![1]);
    assert_eq!(parse_id_list("1;2"), Vec::<i32>::new());
}

#[test]
fn signs_are_read() {
    assert_eq!(parse_id_list("+5,-7"), vec![5, -7]);
    assert_eq!(parse_id_list("-0,+0"), vec![0, 0]);
    assert_eq!(parse_id_list("-,+,1"), vec![1]);
    assert_eq!(parse_id_list("--1,+-1,-+1,++1,2"), vec![2]);
    assert_eq!(parse_id_list("1-,1+,1-1,3"), vec![3]);
}

#[test]
fn leading_zeros_are_read() {
    assert_eq!(parse_id_list("007,0,-010"), vec![7, 0, -10]);
    assert_eq!(parse_id_list("00000000000000000000000000000012"), vec![12]);
    assert_eq!(parse_id_list("-00000000000000000000000002147483648"), vec![i32::MIN]);
}

#[test]
fn numbers_out_of_range_are_passed_over() {
    assert_eq!(parse_id_list("2147483647"), vec![i32::MAX]);
    assert_eq!(parse_id_list("2147483648"), Vec::<i32>::new());
    assert_eq!(parse_id_list("-2147483648"), vec![i32::MIN]);
    assert_eq!(parse_id_list("-2147483649"), Vec::<i32>::new());
    assert_eq!(parse_id_list("+2147483648,1"), vec![1]);
    assert_eq!(parse_id_list("99999999999999999999999999999999999,5"), vec![5]);
    assert_eq!(parse_id_list("-99999999999999999999999999999999999,5"), vec![5]);
    assert_eq!(parse_id_list("21474836470,4294967297,5"), vec![5]);
}

#[test]
fn digits_of_other_scripts_are_no_digits() {
    assert_eq!(parse_id_list("１,2"), vec![2]);
    assert_eq!(parse_id_list("٣,2"), vec![2]);
    assert_eq!(parse_id_list("1，2"), Vec::<i32>::new());
}

#[test]
fn the_limit_is_the_magnitude_of_the_least_id() {
    assert_eq!(LIMIT, -(i32::MIN as i64));
}

#[test]
fn reading_agrees_with_the_standard_parser() {
    let texts = [
        "", ",", "1", "1,2", "1,,2", "-1", "+1", "+", "-", "+-1", "1,a", "a", " 1", "1 ",
        "2147483647", "2147483648", "-2147483648", "-2147483649", "0", "-0", "+0", "00", "1e3",
        "1,2,3,4,5,6,7,8,9,10", "10,9,8", "12345678901234567890", "-12345678901234567890",
        "\u{0}", "1\n,2", "٣", "１", "9,99,999,9999,99999,999999,9999999,99999999,999999999",
        "2147483639,2147483640,2147483650", "-2147483640,-2147483650", ",+7,", "7,-", "- 7",
    ];
    for text in texts {
        assert_eq!(parse_id_list(text), by_std(text), "{:?}", text);
    }
}

#[test]
fn joined_ids_are_read_back() {
    let lists: [&[i32]; 5] =
        [&[1, 2], &[2, 1], &[0], &[i32::MIN, -1, 0, 1, i32::MAX], &[10, 100, 1000, 20, 3]];
    for ids in lists {
        let text = ids.iter().map(|id| format!("{}", id)).collect::<Vec<String>>().join(",");
        assert_eq!(parse_id_list(&text), ids.to_vec());
    }
}
