//! The selections that list accounts and categories.

use vstd::prelude::*;
use crate::entity::Account;
use crate::filter::{search_clauses, selection, Filter};
use crate::statement::{Statement, StatementView};

verus! {

/// The categories, each with the ids of its accounts joined by commas in one
/// column.
pub const SELECT_CATEGORIES: &'static str =
    "SELECT c.id, c.name, c.sequence, c.last_update_time, ac.account_category_ids FROM category c LEFT JOIN (SELECT category_id, GROUP_CONCAT(account_id) AS account_category_ids FROM account_category GROUP BY category_id) AS ac ON c.id = ac.category_id";

/// The selection of every account: that of the filter without a clause.
pub fn query_all_accounts() -> (statement: Statement)
    ensures
        statement@ == selection(Seq::empty()),
{
    Filter::all().statement()
}

/// The selection of the accounts that a search by example admits. The text
/// depends only on which of the criteria are in use; the name, the username,
/// the liked flag and the category id are bound values.
pub fn query_accounts_by_value(account: &Account, with_liked: bool, category_id: i32) -> (statement:
    Statement)
    ensures
        statement@ == selection(search_clauses(account@, with_liked, category_id)),
{
    Filter::search(account, with_liked, category_id).statement()
}

/// The selection of every category.
pub fn query_all_categories() -> (statement: Statement)
    ensures
        statement@ == (StatementView { sql: SELECT_CATEGORIES@, params: Seq::empty() }),
{
    Statement::plain(SELECT_CATEGORIES)
}

} // verus!
