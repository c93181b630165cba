//! The tables and triggers of the store, each created only where it is absent.

use vstd::prelude::*;
use crate::statement::{views, Statement, StatementView};

verus! {

pub const CREATE_TABLE: &'static str = "CREATE TABLE IF NOT EXISTS ";

pub const CREATE_TRIGGER: &'static str = "CREATE TRIGGER IF NOT EXISTS ";

pub const ACCOUNT_TABLE: &'static str =
    "account (id INTEGER PRIMARY KEY, name TEXT NOT NULL, username TEXT NOT NULL, password TEXT NOT NULL, sequence INTEGER NOT NULL DEFAULT 1, liked INTEGER NOT NULL DEFAULT 0, description TEXT, last_update_time TEXT NOT NULL DEFAULT (strftime('%Y-%m-%d %H:%M:%f', 'now', 'localtime')))";

pub const CATEGORY_TABLE: &'static str =
    "category (id INTEGER PRIMARY KEY, name TEXT NOT NULL, sequence INTEGER NOT NULL DEFAULT 1, last_update_time TEXT NOT NULL DEFAULT (strftime('%Y-%m-%d %H:%M:%f', 'now', 'localtime')))";

pub const LINK_TABLE: &'static str =
    "account_category (id INTEGER PRIMARY KEY, account_id INTEGER NOT NULL, category_id INTEGER NOT NULL, last_update_time TEXT NOT NULL DEFAULT (strftime('%Y-%m-%d %H:%M:%f', 'now', 'localtime')))";

pub const ACCOUNT_TRIGGER: &'static str =
    "update_timestamp AFTER UPDATE ON account FOR EACH ROW BEGIN UPDATE account SET last_update_time = (strftime('%Y-%m-%d %H:%M:%f', 'now', 'localtime')) WHERE id = OLD.id; END";

pub const CATEGORY_TRIGGER: &'static str =
    "update_group_last_update_time AFTER UPDATE ON category FOR EACH ROW BEGIN UPDATE category SET last_update_time = (strftime('%Y-%m-%d %H:%M:%f', 'now', 'localtime')) WHERE id = OLD.id; END";

pub const LINK_TRIGGER: &'static str =
    "update_account_group_last_update_time AFTER UPDATE ON account_category FOR EACH ROW BEGIN UPDATE account_category SET last_update_time = (strftime('%Y-%m-%d %H:%M:%f', 'now', 'localtime')) WHERE id = OLD.id; END";

/// A statement without bound values whose text is `head` followed by `body`.
pub open spec fn definition(head: Seq<char>, body: Seq<char>) -> StatementView {
    StatementView { sql: head + body, params: Seq::empty() }
}

/// The statements that set the store up, in the order in which they run: the
/// three tables, then for each table the trigger that renews
/// `last_update_time` whenever one of its rows is updated.
pub open spec fn schema() -> Seq<StatementView> {
    seq![
        definition(CREATE_TABLE@, ACCOUNT_TABLE@),
        definition(CREATE_TABLE@, CATEGORY_TABLE@),
        definition(CREATE_TABLE@, LINK_TABLE@),
        definition(CREATE_TRIGGER@, ACCOUNT_TRIGGER@),
        definition(CREATE_TRIGGER@, CATEGORY_TRIGGER@),
        definition(CREATE_TRIGGER@, LINK_TRIGGER@),
    ]
}

/// Whether a statement creates a table or a trigger and leaves one that
/// exists alone.
pub open spec fn creates_where_absent(statement: StatementView) -> bool {
    CREATE_TABLE@.is_prefix_of(statement.sql) || CREATE_TRIGGER@.is_prefix_of(statement.sql)
}

fn define(head: &str, body: &str) -> (statement: Statement)
    ensures
        statement@ == definition(head@, body@),
{
    let mut sql = String::from_str(head);
    sql.append(body);
    Statement { sql, params: Vec::new() }
}

/// The statements that set the store up. Each creates what it names only
/// where that is absent, so running them on every start is safe.
pub fn create_if_not_exists() -> (statements: Vec<Statement>)
    ensures
        views(statements@) == schema(),
        forall|i: int| 0 <= i < statements.len() ==> creates_where_absent(#[trigger] statements[i]@),
{
    let mut statements: Vec<Statement> = Vec::new();
    statements.push(define(CREATE_TABLE, ACCOUNT_TABLE));
    statements.push(define(CREATE_TABLE, CATEGORY_TABLE));
    statements.push(define(CREATE_TABLE, LINK_TABLE));
    statements.push(define(CREATE_TRIGGER, ACCOUNT_TRIGGER));
    statements.push(define(CREATE_TRIGGER, CATEGORY_TRIGGER));
    statements.push(define(CREATE_TRIGGER, LINK_TRIGGER));
    assert(views(statements@) =~= schema());
    assert forall|i: int| 0 <= i < statements.len() implies creates_where_absent(
        #[trigger] statements[i]@,
    ) by {
        assert(statements[i]@ == schema()[i]);
        let body = if i == 0 {
            ACCOUNT_TABLE@
        } else if i == 1 {
            CATEGORY_TABLE@
        } else if i == 2 {
            LINK_TABLE@
        } else if i == 3 {
            ACCOUNT_TRIGGER@
        } else if i == 4 {
            CATEGORY_TRIGGER@
        } else {
            LINK_TRIGGER@
        };
        let head = if i < 3 {
            CREATE_TABLE@
        } else {
            CREATE_TRIGGER@
        };
        assert(statements[i]@.sql == head + body);
        assert((head + body).subrange(0, head.len() as int) =~= head);
    }
    statements
}

} // verus!
