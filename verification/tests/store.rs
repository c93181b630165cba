use auto_paste::entity::{Account, Category, DEFAULT_DESCRIPTION};
use auto_paste::outcome::StorageError;
use auto_paste::plan::{
    create_category, delete_by_id, delete_category_by_id, insert_account, like_account,
    update_account, update_category, Op,
};
use auto_paste::query::{query_accounts_by_value, query_all_accounts, query_all_categories};
use auto_paste::row::{read_accounts, read_categories, AccountRow, CategoryRow};
use auto_paste::schema::create_if_not_exists;
use auto_paste::statement::{Param, Statement};
use auto_paste::work::{Command, Reply, UnitOfWork};
use rusqlite::types::Value;
use rusqlite::{params_from_iter, Connection, Transaction};
use std::time::{Duration, Instant};

fn value(param: &Param) -> Value {
    match param {
        Param::Integer(number) => Value::from(*number),
        Param::Flag(flag) => Value::from(*flag),
        Param::Text(text) => Value::from(text.clone()),
    }
}

fn execute(conn: &Connection, statement: &Statement) -> Reply {
    match conn.execute(&statement.sql, params_from_iter(statement.params.iter().map(value))) {
        Ok(_) => Reply::Done(conn.last_insert_rowid()),
        Err(_) => Reply::Failed,
    }
}

fn finished(result: rusqlite::Result<()>) -> Reply {
    match result {
        Ok(()) => Reply::Done(0),
        Err(_) => Reply::Failed,
    }
}

fn run(conn: &Connection, plan: Vec<Op>) -> Result<(), StorageError> {
    let mut work = UnitOfWork::new(plan);
    let mut open: Option<Transaction> = None;
    loop {
        let reply = match work.command() {
            Command::Begin => match conn.unchecked_transaction() {
                Ok(transaction) => {
                    open = Some(transaction);
                    Reply::Done(0)
                }
                Err(_) => Reply::Failed,
            },
            Command::Execute(statement) => execute(conn, &statement),
            Command::Commit => match open.take() {
                Some(transaction) => finished(transaction.commit()),
                None => Reply::Failed,
            },
            Command::Rollback => match open.take() {
                Some(transaction) => finished(transaction.rollback()),
                None => Reply::Failed,
            },
            Command::Finish(result) => return result,
        };
        work.advance(reply);
    }
}

fn failure(_: rusqlite::Error) -> StorageError {
    StorageError::Statement
}

fn accounts(conn: &Connection, statement: &Statement) -> Result<Vec<Account>, StorageError> {
    let mut prepared = conn.prepare(&statement.sql).map_err(failure)?;
    let rows = prepared
        .query_map(params_from_iter(statement.params.iter().map(value)), |row| {
            Ok(AccountRow {
                id: row.get(0)?,
                name: row.get(1)?,
                username: row.get(2)?,
                password: row.get(3)?,
                sequence: row.get(4)?,
                liked: row.get(5)?,
                description: row.get(6)?,
                last_update_time: row.get(7)?,
                account_category_ids: row.get(8).map_err(failure),
            })
        })
        .map_err(failure)?;
    read_accounts(rows.map(|row| row.map_err(failure)).collect())
}

fn categories(conn: &Connection) -> Result<Vec<Category>, StorageError> {
    let statement = query_all_categories();
    let mut prepared = conn.prepare(&statement.sql).map_err(failure)?;
    let rows = prepared
        .query_map(params_from_iter(statement.params.iter().map(value)), |row| {
            Ok(CategoryRow {
                id: row.get(0)?,
                name: row.get(1)?,
                sequence: row.get(2)?,
                last_update_time: row.get(3)?,
                account_ids: row.get(4).map_err(failure),
            })
        })
        .map_err(failure)?;
    read_categories(rows.map(|row| row.map_err(failure)).collect())
}

fn store() -> Connection {
    let conn = Connection::open_in_memory().unwrap();
    for statement in create_if_not_exists() {
        assert!(matches!(execute(&conn, &statement), Reply::Done(_)));
    }
    conn
}

/// A store in which linking anything to category 666 is refused.
fn store_that_refuses_666() -> Connection {
    let conn = store();
    conn.execute_batch(
        "CREATE TRIGGER refuse BEFORE INSERT ON account_category WHEN NEW.category_id = 666 \
         BEGIN SELECT RAISE(ABORT, 'refused'); END",
    )
    .unwrap();
    conn
}

fn account(name: &str, username: &str, categories: Option<Vec<i32>>) -> Account {
    Account {
        id: None,
        name: name.to_string(),
        username: username.to_string(),
        password: "pw".to_string(),
        sequence: None,
        liked: None,
        description: None,
        last_update_time: None,
        account_category_ids: categories,
    }
}

fn category(name: &str, accounts: Option<Vec<i32>>) -> Category {
    Category {
        id: None,
        name: name.to_string(),
        sequence: None,
        last_update_time: None,
        account_ids: accounts,
    }
}

fn all(conn: &Connection) -> Vec<Account> {
    accounts(conn, &query_all_accounts()).unwrap()
}

fn names(found: &Vec<Account>) -> Vec<String> {
    let mut names: Vec<String> = found.iter().map(|a| a.name.clone()).collect();
    names.sort();
    names
}

fn sorted(ids: &Option<Vec<i32>>) -> Vec<i32> {
    let mut ids = ids.clone().unwrap();
    ids.sort();
    ids
}

fn links(conn: &Connection) -> Vec<(i64, i64)> {
    let mut prepared = conn
        .prepare("SELECT account_id, category_id FROM account_category ORDER BY account_id, category_id")
        .unwrap();
    let rows = prepared.query_map([], |row| Ok((row.get(0)?, row.get(1)?))).unwrap();
    rows.map(|row| row.unwrap()).collect()
}

fn search(conn: &Connection, name: &str, username: &str) -> Vec<String> {
    let example = account(name, username, None);
    names(&accounts(conn, &query_accounts_by_value(&example, false, 0)).unwrap())
}

#[test]
fn the_schema_can_be_set_up_again() {
    let conn = store();
    run(&conn, insert_account(&account("Ann", "ann1", Some(vec![1])))).unwrap();
    for statement in create_if_not_exists() {
        assert!(matches!(execute(&conn, &statement), Reply::Done(_)));
    }
    assert_eq!(names(&all(&conn)), vec!["Ann"]);
    assert_eq!(links(&conn), vec![(1, 1)]);
}

#[test]
fn a_created_account_is_listed_with_its_categories() {
    let conn = store();
    assert_eq!(run(&conn, insert_account(&account("Ann", "ann1", Some(vec![1, 2])))), Ok(()));
    let found = all(&conn);
    assert_eq!(found.len(), 1);
    assert_eq!(found[0].name, "Ann");
    assert_eq!(found[0].username, "ann1");
    assert_eq!(found[0].password, "pw");
    assert!(found[0].id.is_some());
    assert_eq!(sorted(&found[0].account_category_ids), vec![1, 2]);
}

#[test]
fn a_created_account_is_listed_whatever_the_order_of_its_categories() {
    let conn = store();
    run(&conn, insert_account(&account("Ann", "ann1", Some(vec![2, 1])))).unwrap();
    assert_eq!(sorted(&all(&conn)[0].account_category_ids), vec![1, 2]);
}

#[test]
fn an_account_without_categories_is_listed_with_an_empty_list() {
    let conn = store();
    run(&conn, insert_account(&account("Ann", "ann1", None))).unwrap();
    assert_eq!(all(&conn)[0].account_category_ids, Some(vec![]));
    assert_eq!(links(&conn), vec![]);
}

#[test]
fn the_defaults_are_persisted() {
    let conn = store();
    run(&conn, insert_account(&account("Ann", "ann1", None))).unwrap();
    let mut empty = account("Bob", "bob1", None);
    empty.description = Some(String::new());
    run(&conn, insert_account(&empty)).unwrap();
    for found in all(&conn) {
        assert_eq!(found.sequence, Some(1));
        assert_eq!(found.liked, Some(false));
        assert_eq!(found.description, Some(DEFAULT_DESCRIPTION.to_string()));
        assert!(found.last_update_time.is_some());
    }
}

#[test]
fn given_values_are_persisted() {
    let conn = store();
    let mut given = account("Ann", "ann1", None);
    given.sequence = Some(5);
    given.liked = Some(true);
    given.description = Some("spare key".to_string());
    given.last_update_time = Some("1999-01-01 00:00:00.000".to_string());
    run(&conn, insert_account(&given)).unwrap();
    let found = &all(&conn)[0];
    assert_eq!(found.sequence, Some(5));
    assert_eq!(found.liked, Some(true));
    assert_eq!(found.description, Some("spare key".to_string()));
    assert_ne!(found.last_update_time, Some("1999-01-01 00:00:00.000".to_string()));
}

#[test]
fn the_links_of_a_created_account_name_its_own_row() {
    let conn = store();
    run(&conn, insert_account(&account("Ann", "ann1", Some(vec![7])))).unwrap();
    run(&conn, insert_account(&account("Bob", "bob1", Some(vec![8, 9])))).unwrap();
    let found = all(&conn);
    let ann = found.iter().find(|a| a.name == "Ann").unwrap();
    let bob = found.iter().find(|a| a.name == "Bob").unwrap();
    assert_eq!(sorted(&ann.account_category_ids), vec![7]);
    assert_eq!(sorted(&bob.account_category_ids), vec![8, 9]);
    assert_eq!(
        links(&conn),
        vec![
            (ann.id.unwrap() as i64, 7),
            (bob.id.unwrap() as i64, 8),
            (bob.id.unwrap() as i64, 9)
        ]
    );
}

#[test]
fn an_update_replaces_the_categories() {
    let conn = store();
    run(&conn, insert_account(&account("Ann", "ann1", Some(vec![1, 2])))).unwrap();
    run(&conn, insert_account(&account("Bob", "bob1", Some(vec![1])))).unwrap();
    let mut ann = all(&conn).into_iter().find(|a| a.name == "Ann").unwrap();
    ann.account_category_ids = Some(vec![2, 3, 4]);
    ann.username = "ann2".to_string();
    assert_eq!(run(&conn, update_account(&ann)), Ok(()));
    let found = all(&conn);
    let after = found.iter().find(|a| a.name == "Ann").unwrap();
    assert_eq!(sorted(&after.account_category_ids), vec![2, 3, 4]);
    assert_eq!(after.username, "ann2");
    assert_eq!(after.id, ann.id);
    let bob = found.iter().find(|a| a.name == "Bob").unwrap();
    assert_eq!(sorted(&bob.account_category_ids), vec![1]);
}

#[test]
fn an_update_without_categories_leaves_none() {
    let conn = store();
    run(&conn, insert_account(&account("Ann", "ann1", Some(vec![1, 2])))).unwrap();
    let mut ann = all(&conn).remove(0);
    ann.account_category_ids = None;
    run(&conn, update_account(&ann)).unwrap();
    assert_eq!(all(&conn)[0].account_category_ids, Some(vec![]));
    assert_eq!(links(&conn), vec![]);
}

#[test]
fn an_update_applies_the_defaults() {
    let conn = store();
    let mut given = account("Ann", "ann1", None);
    given.sequence = Some(5);
    given.liked = Some(true);
    given.description = Some("spare key".to_string());
    run(&conn, insert_account(&given)).unwrap();
    let mut ann = all(&conn).remove(0);
    ann.sequence = None;
    ann.liked = None;
    ann.description = Some(String::new());
    assert_eq!(run(&conn, update_account(&ann)), Ok(()));
    let after = all(&conn).remove(0);
    assert_eq!(after.sequence, Some(1));
    assert_eq!(after.liked, Some(false));
    assert_eq!(after.description, Some(DEFAULT_DESCRIPTION.to_string()));
}

#[test]
fn a_refused_update_leaves_everything_as_it_was() {
    let conn = store_that_refuses_666();
    run(&conn, insert_account(&account("Ann", "ann1", Some(vec![1, 2])))).unwrap();
    let before = all(&conn);
    let mut ann = before[0].clone();
    ann.name = "Anna".to_string();
    ann.account_category_ids = Some(vec![3, 666, 4]);
    assert_eq!(run(&conn, update_account(&ann)), Err(StorageError::Statement));
    assert_eq!(all(&conn), before);
    assert_eq!(sorted(&all(&conn)[0].account_category_ids), vec![1, 2]);
    assert!(conn.is_autocommit());
}

#[test]
fn a_refused_creation_leaves_no_row() {
    let conn = store_that_refuses_666();
    assert_eq!(
        run(&conn, insert_account(&account("Ann", "ann1", Some(vec![1, 666])))),
        Err(StorageError::Statement)
    );
    assert_eq!(all(&conn), vec![]);
    assert_eq!(links(&conn), vec![]);
    assert!(conn.is_autocommit());
}

#[test]
fn a_refused_statement_without_a_schema_fails_the_work() {
    let conn = Connection::open_in_memory().unwrap();
    assert_eq!(
        run(&conn, insert_account(&account("Ann", "ann1", None))),
        Err(StorageError::Statement)
    );
    assert_eq!(accounts(&conn, &query_all_accounts()), Err(StorageError::Statement));
    assert_eq!(categories(&conn), Err(StorageError::Statement));
}

#[test]
fn deleting_an_account_takes_its_links() {
    let conn = store();
    run(&conn, insert_account(&account("Ann", "ann1", Some(vec![1, 2, 3])))).unwrap();
    run(&conn, insert_account(&account("Bob", "bob1", Some(vec![1])))).unwrap();
    let found = all(&conn);
    let ann = found.iter().find(|a| a.name == "Ann").unwrap().id.unwrap();
    let bob = found.iter().find(|a| a.name == "Bob").unwrap().id.unwrap();
    assert_eq!(run(&conn, delete_by_id(ann)), Ok(()));
    assert_eq!(names(&all(&conn)), vec!["Bob"]);
    assert_eq!(links(&conn), vec![(bob as i64, 1)]);
    assert_eq!(search(&conn, "Ann", ""), Vec::<String>::new());
}

#[test]
fn deleting_an_account_that_is_not_there_changes_nothing() {
    let conn = store();
    run(&conn, insert_account(&account("Ann", "ann1", Some(vec![1])))).unwrap();
    let before = all(&conn);
    assert_eq!(run(&conn, delete_by_id(12345)), Ok(()));
    assert_eq!(all(&conn), before);
}

#[test]
fn deleting_a_category_takes_it_from_every_account() {
    let conn = store();
    run(&conn, create_category(&category("work", None))).unwrap();
    run(&conn, create_category(&category("home", None))).unwrap();
    let listed = categories(&conn).unwrap();
    let work = listed.iter().find(|c| c.name == "work").unwrap().id.unwrap();
    let home = listed.iter().find(|c| c.name == "home").unwrap().id.unwrap();
    run(&conn, insert_account(&account("Ann", "ann1", Some(vec![work, home])))).unwrap();
    run(&conn, insert_account(&account("Bob", "bob1", Some(vec![work])))).unwrap();
    assert_eq!(run(&conn, delete_category_by_id(work)), Ok(()));
    let left = categories(&conn).unwrap();
    assert_eq!(left.len(), 1);
    assert_eq!(left[0].name, "home");
    let found = all(&conn);
    let ann = found.iter().find(|a| a.name == "Ann").unwrap();
    let bob = found.iter().find(|a| a.name == "Bob").unwrap();
    assert_eq!(sorted(&ann.account_category_ids), vec![home]);
    assert_eq!(sorted(&bob.account_category_ids), vec![]);
    assert!(links(&conn).iter().all(|link| link.1 != work as i64));
}

#[test]
fn an_update_without_an_id_creates() {
    let by_update = store();
    let by_insert = store();
    let ann = account("Ann", "ann1", Some(vec![1, 2]));
    assert_eq!(run(&by_update, update_account(&ann)), Ok(()));
    assert_eq!(run(&by_insert, insert_account(&ann)), Ok(()));
    let mut updated = all(&by_update);
    let mut inserted = all(&by_insert);
    assert_eq!(updated.len(), 1);
    updated[0].last_update_time = None;
    inserted[0].last_update_time = None;
    assert_eq!(updated, inserted);
    assert_eq!(links(&by_update), links(&by_insert));
}

#[test]
fn an_update_of_a_category_without_an_id_creates() {
    let by_update = store();
    let by_create = store();
    let work = category("work", Some(vec![3, 4]));
    assert_eq!(run(&by_update, update_category(&work)), Ok(()));
    assert_eq!(run(&by_create, create_category(&work)), Ok(()));
    let mut updated = categories(&by_update).unwrap();
    let mut created = categories(&by_create).unwrap();
    assert_eq!(updated.len(), 1);
    updated[0].last_update_time = None;
    created[0].last_update_time = None;
    assert_eq!(updated, created);
    assert_eq!(created[0].sequence, Some(1));
    assert_eq!(sorted(&created[0].account_ids), vec![3, 4]);
}

#[test]
fn an_update_of_a_category_replaces_its_accounts() {
    let conn = store();
    run(&conn, create_category(&category("work", Some(vec![1, 2])))).unwrap();
    run(&conn, create_category(&category("home", Some(vec![1])))).unwrap();
    let mut work =
        categories(&conn).unwrap().into_iter().find(|c| c.name == "work").unwrap();
    work.account_ids = Some(vec![5]);
    work.name = "office".to_string();
    work.sequence = Some(4);
    assert_eq!(run(&conn, update_category(&work)), Ok(()));
    let listed = categories(&conn).unwrap();
    let office = listed.iter().find(|c| c.name == "office").unwrap();
    assert_eq!(office.id, work.id);
    assert_eq!(office.sequence, Some(4));
    assert_eq!(sorted(&office.account_ids), vec![5]);
    let home = listed.iter().find(|c| c.name == "home").unwrap();
    assert_eq!(sorted(&home.account_ids), vec![1]);
}

#[test]
fn liking_sets_the_flag_of_one_account() {
    let conn = store();
    run(&conn, insert_account(&account("Ann", "ann1", Some(vec![1])))).unwrap();
    run(&conn, insert_account(&account("Bob", "bob1", None))).unwrap();
    let ann = all(&conn).into_iter().find(|a| a.name == "Ann").unwrap();
    assert_eq!(run(&conn, like_account(ann.id.unwrap(), true)), Ok(()));
    let found = all(&conn);
    let after = found.iter().find(|a| a.name == "Ann").unwrap();
    assert_eq!(after.liked, Some(true));
    assert_eq!(after.username, "ann1");
    assert_eq!(sorted(&after.account_category_ids), vec![1]);
    assert_eq!(found.iter().find(|a| a.name == "Bob").unwrap().liked, Some(false));
    assert_eq!(run(&conn, like_account(ann.id.unwrap(), false)), Ok(()));
    assert_eq!(all(&conn).iter().find(|a| a.name == "Ann").unwrap().liked, Some(false));
}

fn people() -> Connection {
    let conn = store();
    for (name, username) in
        [("alice", "wonder"), ("carl", "bobcat"), ("albob", "albob"), ("dora", "explorer")]
    {
        run(&conn, insert_account(&account(name, username, None))).unwrap();
    }
    conn
}

#[test]
fn a_name_and_a_username_match_either_way() {
    let conn = people();
    assert_eq!(search(&conn, "al", "bo"), vec!["albob", "alice", "carl"]);
}

#[test]
fn a_name_alone_decides_alone() {
    let conn = people();
    assert_eq!(search(&conn, "al", ""), vec!["albob", "alice"]);
}

#[test]
fn a_username_alone_decides_alone() {
    let conn = people();
    assert_eq!(search(&conn, "", "bo"), vec!["albob", "carl"]);
    assert_eq!(search(&conn, "", "al"), vec!["albob"]);
}

#[test]
fn a_search_without_criteria_finds_all() {
    let conn = people();
    assert_eq!(search(&conn, "", ""), vec!["albob", "alice", "carl", "dora"]);
}

#[test]
fn a_search_tells_capitals_from_small_letters() {
    let conn = people();
    assert_eq!(search(&conn, "AL", ""), Vec::<String>::new());
    assert_eq!(search(&conn, "Alice", ""), Vec::<String>::new());
    assert_eq!(search(&conn, "alice", ""), vec!["alice"]);
}

#[test]
fn a_search_takes_every_character_as_it_is() {
    let conn = store();
    for name in ["O'Brien", "100%", "a_b", "axb", "plain", "semi;colon", "quo\"te", "back\\slash"]
    {
        run(&conn, insert_account(&account(name, "user", None))).unwrap();
    }
    assert_eq!(search(&conn, "'", ""), vec!["O'Brien"]);
    assert_eq!(search(&conn, "O'B", ""), vec!["O'Brien"]);
    assert_eq!(search(&conn, "%", ""), vec!["100%"]);
    assert_eq!(search(&conn, "_", ""), vec!["a_b"]);
    assert_eq!(search(&conn, "a_b", ""), vec!["a_b"]);
    assert_eq!(search(&conn, ";", ""), vec!["semi;colon"]);
    assert_eq!(search(&conn, "\"", ""), vec!["quo\"te"]);
    assert_eq!(search(&conn, "\\", ""), vec!["back\\slash"]);
    assert_eq!(search(&conn, "' OR '1'='1", ""), Vec::<String>::new());
    assert_eq!(search(&conn, "x'; DROP TABLE account; --", ""), Vec::<String>::new());
    assert_eq!(all(&conn).len(), 8);
}

#[test]
fn a_text_with_a_quote_is_stored_as_it_is() {
    let conn = store();
    let mut odd = account("Robert'); DROP TABLE account;--", "u\"ser", None);
    odd.description = Some("100% 'quoted'".to_string());
    assert_eq!(run(&conn, insert_account(&odd)), Ok(()));
    let found = all(&conn);
    assert_eq!(found.len(), 1);
    assert_eq!(found[0].name, "Robert'); DROP TABLE account;--");
    assert_eq!(found[0].username, "u\"ser");
    assert_eq!(found[0].description, Some("100% 'quoted'".to_string()));
}

#[test]
fn a_search_by_the_liked_flag() {
    let conn = people();
    let alice = all(&conn).into_iter().find(|a| a.name == "alice").unwrap();
    run(&conn, like_account(alice.id.unwrap(), true)).unwrap();
    let mut example = account("", "", None);
    example.liked = Some(true);
    assert_eq!(
        names(&accounts(&conn, &query_accounts_by_value(&example, true, 0)).unwrap()),
        vec!["alice"]
    );
    example.liked = Some(false);
    assert_eq!(
        names(&accounts(&conn, &query_accounts_by_value(&example, true, 0)).unwrap()),
        vec!["albob", "carl", "dora"]
    );
    example.liked = None;
    assert_eq!(
        names(&accounts(&conn, &query_accounts_by_value(&example, true, 0)).unwrap()),
        vec!["albob", "carl", "dora"]
    );
    example.liked = Some(true);
    assert_eq!(
        names(&accounts(&conn, &query_accounts_by_value(&example, false, 0)).unwrap()),
        vec!["albob", "alice", "carl", "dora"]
    );
}

#[test]
fn a_search_by_category() {
    let conn = store();
    run(&conn, insert_account(&account("Ann", "ann1", Some(vec![1, 2])))).unwrap();
    run(&conn, insert_account(&account("Bob", "bob1", Some(vec![2])))).unwrap();
    run(&conn, insert_account(&account("Cid", "cid1", None))).unwrap();
    let example = account("", "", None);
    let found = accounts(&conn, &query_accounts_by_value(&example, false, 2)).unwrap();
    assert_eq!(names(&found), vec!["Ann", "Bob"]);
    let ann = found.iter().find(|a| a.name == "Ann").unwrap();
    assert_eq!(sorted(&ann.account_category_ids), vec![1, 2]);
    let found = accounts(&conn, &query_accounts_by_value(&example, false, 1)).unwrap();
    assert_eq!(names(&found), vec!["Ann"]);
    let found = accounts(&conn, &query_accounts_by_value(&example, false, 3)).unwrap();
    assert_eq!(names(&found), Vec::<String>::new());
    for unused in [0, -1, -2] {
        let found = accounts(&conn, &query_accounts_by_value(&example, false, unused)).unwrap();
        assert_eq!(names(&found), vec!["Ann", "Bob", "Cid"]);
    }
}

#[test]
fn all_criteria_must_hold_together() {
    let conn = store();
    run(&conn, insert_account(&account("alice", "wonder", Some(vec![1])))).unwrap();
    run(&conn, insert_account(&account("carl", "bobcat", Some(vec![1])))).unwrap();
    run(&conn, insert_account(&account("albob", "albob", Some(vec![2])))).unwrap();
    run(&conn, insert_account(&account("dora", "explorer", Some(vec![1])))).unwrap();
    let carl = all(&conn).into_iter().find(|a| a.name == "carl").unwrap();
    run(&conn, like_account(carl.id.unwrap(), true)).unwrap();
    let mut example = account("al", "bo", None);
    let found = accounts(&conn, &query_accounts_by_value(&example, false, 1)).unwrap();
    assert_eq!(names(&found), vec!["alice", "carl"]);
    example.liked = Some(true);
    let found = accounts(&conn, &query_accounts_by_value(&example, true, 1)).unwrap();
    assert_eq!(names(&found), vec!["carl"]);
    let found = accounts(&conn, &query_accounts_by_value(&example, true, 2)).unwrap();
    assert_eq!(names(&found), Vec::<String>::new());
}

#[test]
fn a_filter_without_a_condition_in_a_clause_finds_nothing() {
    let conn = people();
    let filter = auto_paste::filter::Filter { clauses: vec![vec![]] };
    assert_eq!(accounts(&conn, &filter.statement()), Ok(vec![]));
}

#[test]
fn categories_are_listed_with_their_accounts() {
    let conn = store();
    run(&conn, create_category(&category("work", Some(vec![1, 2])))).unwrap();
    run(&conn, create_category(&category("home", None))).unwrap();
    let listed = categories(&conn).unwrap();
    assert_eq!(listed.len(), 2);
    let work = listed.iter().find(|c| c.name == "work").unwrap();
    assert_eq!(sorted(&work.account_ids), vec![1, 2]);
    assert_eq!(work.sequence, Some(1));
    assert!(work.last_update_time.is_some());
    let home = listed.iter().find(|c| c.name == "home").unwrap();
    assert_eq!(home.account_ids, Some(vec![]));
    assert_eq!(
        links(&conn),
        vec![(1, work.id.unwrap() as i64), (2, work.id.unwrap() as i64)]
    );
}

#[test]
fn the_time_of_the_last_update_moves_on() {
    let conn = store();
    run(&conn, insert_account(&account("Ann", "ann1", None))).unwrap();
    let before = all(&conn).remove(0);
    let start = Instant::now();
    while start.elapsed() < Duration::from_millis(20) {}
    let mut changed = before.clone();
    changed.username = "ann2".to_string();
    run(&conn, update_account(&changed)).unwrap();
    let after = all(&conn).remove(0);
    assert!(after.last_update_time.clone().unwrap() > before.last_update_time.clone().unwrap());
    let start = Instant::now();
    while start.elapsed() < Duration::from_millis(20) {}
    run(&conn, like_account(after.id.unwrap(), true)).unwrap();
    let liked = all(&conn).remove(0);
    assert!(liked.last_update_time.unwrap() > after.last_update_time.unwrap());
}

#[test]
fn the_time_of_the_last_update_is_not_taken_from_the_caller() {
    let conn = store();
    run(&conn, insert_account(&account("Ann", "ann1", None))).unwrap();
    let mut ann = all(&conn).remove(0);
    ann.last_update_time = Some("9999-12-31 23:59:59.999".to_string());
    run(&conn, update_account(&ann)).unwrap();
    assert_ne!(all(&conn)[0].last_update_time, Some("9999-12-31 23:59:59.999".to_string()));
}
