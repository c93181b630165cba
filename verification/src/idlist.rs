//! Id lists as the store hands them back: decimal numbers joined by commas in
//! one text. A piece that is no `i32` is passed over; the others are kept in
//! their order.

use vstd::prelude::*;

verus! {

/// The largest magnitude of an `i32`: that of its least value.
pub const LIMIT: i64 = 2147483648;

pub open spec fn is_digit(c: char) -> bool {
    '0' <= c <= '9'
}

pub open spec fn digit_value(c: char) -> int {
    c as int - '0' as int
}

pub open spec fn all_digits(text: Seq<char>) -> bool {
    forall|i: int| 0 <= i < text.len() ==> is_digit(#[trigger] text[i])
}

/// The number that a run of decimal digits writes.
pub open spec fn decimal(digits: Seq<char>) -> int
    decreases digits.len(),
{
    if digits.len() == 0 {
        0
    } else {
        decimal(digits.drop_last()) * 10 + digit_value(digits.last())
    }
}

pub open spec fn is_sign(c: char) -> bool {
    c == '+' || c == '-'
}

/// What follows the sign of a piece, or the whole piece where it has none.
pub open spec fn unsigned_part(piece: Seq<char>) -> Seq<char> {
    if piece.len() > 0 && is_sign(piece[0]) {
        piece.skip(1)
    } else {
        piece
    }
}

/// The number that a piece writes: an optional sign and at least one decimal
/// digit, nothing else, with a value that an `i32` holds.
pub open spec fn parse_id(piece: Seq<char>) -> Option<i32> {
    let digits = unsigned_part(piece);
    let value = if piece.len() > 0 && piece[0] == '-' {
        -decimal(digits)
    } else {
        decimal(digits)
    };
    if digits.len() > 0 && all_digits(digits) && i32::MIN <= value <= i32::MAX {
        Some(value as i32)
    } else {
        None
    }
}

/// The pieces between the commas of a text, in order. A text without a comma
/// is one piece, an empty text one empty piece.
pub open spec fn pieces(text: Seq<char>) -> Seq<Seq<char>>
    decreases text.len(),
{
    if text.len() == 0 {
        seq![Seq::empty()]
    } else {
        let before = pieces(text.drop_last());
        if text.last() == ',' {
            before.push(Seq::empty())
        } else {
            before.drop_last().push(before.last().push(text.last()))
        }
    }
}

/// The numbers that the pieces write, without the pieces that write none.
pub open spec fn parsed(pieces: Seq<Seq<char>>) -> Seq<i32>
    decreases pieces.len(),
{
    if pieces.len() == 0 {
        Seq::empty()
    } else {
        let before = parsed(pieces.drop_last());
        match parse_id(pieces.last()) {
            Some(id) => before.push(id),
            None => before,
        }
    }
}

/// The ids that a comma-joined text holds.
pub open spec fn id_list(text: Seq<char>) -> Seq<i32> {
    parsed(pieces(text))
}

/// The ids of an optional comma-joined text: none where the text is absent.
pub open spec fn id_list_of(text: Option<Seq<char>>) -> Seq<i32> {
    match text {
        Some(t) => id_list(t),
        None => Seq::empty(),
    }
}

/// The character that writes one decimal digit.
pub open spec fn digit_char(digit: int) -> char {
    if digit == 0 {
        '0'
    } else if digit == 1 {
        '1'
    } else if digit == 2 {
        '2'
    } else if digit == 3 {
        '3'
    } else if digit == 4 {
        '4'
    } else if digit == 5 {
        '5'
    } else if digit == 6 {
        '6'
    } else if digit == 7 {
        '7'
    } else if digit == 8 {
        '8'
    } else {
        '9'
    }
}

/// The decimal digits of a number, without leading zeros.
pub open spec fn digits_of(number: nat) -> Seq<char>
    decreases number,
{
    if number < 10 {
        seq![digit_char(number as int)]
    } else {
        digits_of(number / 10).push(digit_char((number % 10) as int))
    }
}

/// An id in decimal: its digits, behind a minus sign where it is negative.
pub open spec fn id_text(id: i32) -> Seq<char> {
    if id < 0 {
        seq!['-'] + digits_of((-id) as nat)
    } else {
        digits_of(id as nat)
    }
}

/// The ids in decimal, joined by commas.
pub open spec fn joined(ids: Seq<i32>) -> Seq<char>
    decreases ids.len(),
{
    if ids.len() == 0 {
        Seq::empty()
    } else if ids.len() == 1 {
        id_text(ids[0])
    } else {
        joined(ids.drop_last()) + seq![','] + id_text(ids.last())
    }
}

pub open spec fn no_comma(text: Seq<char>) -> bool {
    forall|i: int| 0 <= i < text.len() ==> #[trigger] text[i] != ','
}

/// The digits of a number are digits, at least one, and write the number.
pub proof fn lemma_digits_of(number: nat)
    ensures
        digits_of(number).len() > 0,
        all_digits(digits_of(number)),
        decimal(digits_of(number)) == number,
    decreases number,
{
    if number < 10 {
        let one = seq![digit_char(number as int)];
        assert(one.drop_last() =~= Seq::<char>::empty());
        assert(decimal(one.drop_last()) == 0);
    } else {
        let fewer = digits_of(number / 10);
        let last = digit_char((number % 10) as int);
        lemma_digits_of(number / 10);
        lemma_decimal_push(fewer, last);
        assert forall|i: int| 0 <= i < fewer.push(last).len() implies is_digit(
            #[trigger] fewer.push(last)[i],
        ) by {
            if i < fewer.len() {
                assert(fewer.push(last)[i] == fewer[i]);
            }
        }
    }
}

/// The text of an id reads as that id, and holds no comma.
pub proof fn lemma_id_text(id: i32)
    ensures
        parse_id(id_text(id)) == Some(id),
        no_comma(id_text(id)),
        id_text(id).len() > 0,
{
    let text = id_text(id);
    if id < 0 {
        let digits = digits_of((-id) as nat);
        lemma_digits_of((-id) as nat);
        assert(text[0] == '-');
        assert(unsigned_part(text) =~= digits);
        assert forall|i: int| 0 <= i < text.len() implies #[trigger] text[i] != ',' by {
            if i > 0 {
                assert(text[i] == digits[i - 1]);
                assert(is_digit(digits[i - 1]));
            }
        }
    } else {
        lemma_digits_of(id as nat);
        assert(is_digit(text[0]));
        assert(unsigned_part(text) == text);
        assert forall|i: int| 0 <= i < text.len() implies #[trigger] text[i] != ',' by {
            assert(is_digit(text[i]));
        }
    }
}

/// A text without a comma behind another text lengthens its last piece.
pub proof fn lemma_pieces_lengthened(text: Seq<char>, more: Seq<char>)
    requires
        no_comma(more),
    ensures
        pieces(text).len() >= 1,
        pieces(text + more) == pieces(text).drop_last().push(pieces(text).last() + more),
    decreases more.len(),
{
    lemma_pieces_not_empty(text);
    let before = pieces(text);
    if more.len() == 0 {
        assert(text + more =~= text);
        assert(before.last() + more =~= before.last());
        assert(before.drop_last().push(before.last()) =~= before);
    } else {
        let fewer = more.drop_last();
        assert(no_comma(fewer)) by {
            assert forall|i: int| 0 <= i < fewer.len() implies #[trigger] fewer[i] != ',' by {
                assert(fewer[i] == more[i]);
            }
        }
        lemma_pieces_lengthened(text, fewer);
        assert((text + more).drop_last() =~= text + fewer);
        assert((text + more).last() == more.last());
        assert(more.last() != ',');
        let so_far = before.drop_last().push(before.last() + fewer);
        assert(so_far.drop_last() =~= before.drop_last());
        assert((before.last() + fewer).push(more.last()) =~= before.last() + more);
    }
}

/// A comma behind a text opens a new, empty piece.
pub proof fn lemma_pieces_comma(text: Seq<char>)
    ensures
        pieces(text + seq![',']) == pieces(text).push(Seq::empty()),
{
    assert((text + seq![',']).drop_last() =~= text);
}

/// What the store joins, this library takes apart again: the ids that a
/// text of decimal ids joined by commas holds are those ids, in their order.
pub proof fn law_joined_ids_are_read_back(ids: Seq<i32>)
    requires
        ids.len() > 0,
    ensures
        id_list(joined(ids)) == ids,
        pieces(joined(ids)).len() == ids.len(),
    decreases ids.len(),
{
    let empty = Seq::<char>::empty();
    assert(pieces(empty) == seq![empty]);
    if ids.len() == 1 {
        let text = id_text(ids[0]);
        lemma_id_text(ids[0]);
        lemma_pieces_lengthened(empty, text);
        assert(empty + text =~= text);
        assert(seq![empty].drop_last().push(seq![empty].last() + text) =~= seq![text]);
        assert(seq![text].drop_last() =~= Seq::<Seq<char>>::empty());
        assert(parsed(seq![text].drop_last()) =~= Seq::<i32>::empty());
        assert(id_list(text) =~= ids);
    } else {
        let fewer = ids.drop_last();
        let text = id_text(ids.last());
        let head = joined(fewer);
        law_joined_ids_are_read_back(fewer);
        lemma_id_text(ids.last());
        lemma_pieces_comma(head);
        lemma_pieces_lengthened(head + seq![','], text);
        let opened = pieces(head).push(empty);
        assert(opened.drop_last() =~= pieces(head));
        assert(empty + text =~= text);
        let all = pieces(head).push(text);
        assert(pieces(joined(ids)) == all);
        assert(all.drop_last() =~= pieces(head));
        assert(fewer.push(ids.last()) =~= ids);
    }
}

pub proof fn lemma_decimal_push(digits: Seq<char>, c: char)
    ensures
        decimal(digits.push(c)) == decimal(digits) * 10 + digit_value(c),
{
    assert(digits.push(c).drop_last() =~= digits);
}

pub proof fn lemma_decimal_not_negative(digits: Seq<char>)
    requires
        all_digits(digits),
    ensures
        decimal(digits) >= 0,
    decreases digits.len(),
{
    if digits.len() > 0 {
        lemma_decimal_not_negative(digits.drop_last());
    }
}

pub proof fn lemma_pieces_not_empty(text: Seq<char>)
    ensures
        pieces(text).len() >= 1,
    decreases text.len(),
{
    if text.len() > 0 {
        lemma_pieces_not_empty(text.drop_last());
    }
}

/// What is known of the piece that is being read.
struct Scan {
    started: bool,
    negative: bool,
    has_digits: bool,
    valid: bool,
    overflow: bool,
    magnitude: i64,
}

impl Scan {
    spec fn tracks(self, piece: Seq<char>) -> bool {
        let digits = unsigned_part(piece);
        &&& self.started == (piece.len() > 0)
        &&& self.negative == (piece.len() > 0 && piece[0] == '-')
        &&& self.has_digits == (digits.len() > 0)
        &&& self.valid == all_digits(digits)
        &&& 0 <= self.magnitude <= LIMIT
        &&& self.valid && !self.overflow ==> self.magnitude == decimal(digits)
        &&& self.valid && self.overflow ==> decimal(digits) > LIMIT
    }

    fn start() -> (scan: Scan)
        ensures
            scan.tracks(Seq::empty()),
    {
        Scan {
            started: false,
            negative: false,
            has_digits: false,
            valid: true,
            overflow: false,
            magnitude: 0,
        }
    }

    fn step(self, c: char, Ghost(piece): Ghost<Seq<char>>) -> (scan: Scan)
        requires
            self.tracks(piece),
        ensures
            scan.tracks(piece.push(c)),
    {
        let ghost next = piece.push(c);
        if !self.started && (c == '+' || c == '-') {
            assert(unsigned_part(next) =~= Seq::<char>::empty());
            return Scan {
                started: true,
                negative: c == '-',
                has_digits: false,
                valid: true,
                overflow: false,
                magnitude: 0,
            };
        }
        let ghost digits = unsigned_part(piece);
        proof {
            assert(unsigned_part(next) =~= digits.push(c));
            assert(next[0] == if piece.len() > 0 {
                piece[0]
            } else {
                c
            });
            lemma_decimal_push(digits, c);
            if all_digits(digits) {
                lemma_decimal_not_negative(digits);
            }
            if all_digits(digits.push(c)) {
                assert forall|i: int| 0 <= i < digits.len() implies is_digit(
                    #[trigger] digits[i],
                ) by {
                    assert(digits[i] == digits.push(c)[i]);
                }
                assert(digits.push(c)[digits.len() as int] == c);
            }
        }
        if !self.valid || !('0' <= c && c <= '9') {
            return Scan {
                started: true,
                negative: self.negative,
                has_digits: true,
                valid: false,
                overflow: false,
                magnitude: 0,
            };
        }
        let digit: i64 = (c as u32 - '0' as u32) as i64;
        if self.overflow || self.magnitude * 10 + digit > LIMIT {
            Scan {
                started: true,
                negative: self.negative,
                has_digits: true,
                valid: true,
                overflow: true,
                magnitude: 0,
            }
        } else {
            Scan {
                started: true,
                negative: self.negative,
                has_digits: true,
                valid: true,
                overflow: false,
                magnitude: self.magnitude * 10 + digit,
            }
        }
    }

    fn finish(self, Ghost(piece): Ghost<Seq<char>>) -> (id: Option<i32>)
        requires
            self.tracks(piece),
        ensures
            id == parse_id(piece),
    {
        if !self.valid || !self.has_digits || self.overflow {
            return None;
        }
        if self.negative {
            Some((0 - self.magnitude) as i32)
        } else if self.magnitude < LIMIT {
            Some(self.magnitude as i32)
        } else {
            None
        }
    }
}

/// The ids that a comma-joined text holds, in its order. A piece that is not
/// an optional sign and decimal digits with a value in the range of `i32` is
/// left out, and so is an empty one.
pub fn parse_id_list(text: &str) -> (ids: Vec<i32>)
    ensures
        ids@ == id_list(text@),
{
    let mut ids: Vec<i32> = Vec::new();
    let mut scan = Scan::start();
    let chars = text.chars();
    proof {
        lemma_pieces_not_empty(text@.take(0));
        assert(text@.take(0) =~= Seq::<char>::empty());
    }
    for c in it: chars
        invariant
            it.seq() == text@,
            pieces(text@.take(it.index())).len() >= 1,
            ids@ == parsed(pieces(text@.take(it.index())).drop_last()),
            scan.tracks(pieces(text@.take(it.index())).last()),
    {
        let ghost read = text@.take(it.index());
        let ghost before = pieces(read);
        let ghost now = text@.take(it.index() + 1);
        proof {
            assert(now.drop_last() =~= read);
            assert(now.last() == c);
        }
        if c == ',' {
            let id = scan.finish(Ghost(before.last()));
            if let Some(id) = id {
                ids.push(id);
            }
            scan = Scan::start();
            proof {
                assert(pieces(now) == before.push(Seq::empty()));
                assert(pieces(now).drop_last() =~= before);
            }
        } else {
            scan = scan.step(c, Ghost(before.last()));
            proof {
                assert(pieces(now).drop_last() =~= before.drop_last());
            }
        }
    }
    proof {
        assert(text@.take(text@.len() as int) =~= text@);
    }
    let ghost all = pieces(text@);
    let id = scan.finish(Ghost(all.last()));
    if let Some(id) = id {
        ids.push(id);
    }
    ids
}

} // verus!
