//! Rows as they come back from a selection, and the entities they stand for.

use vstd::prelude::*;
use crate::entity::{text_view, Account, AccountView, Category, CategoryView};
use crate::idlist::{id_list_of, parse_id_list};
use crate::outcome::StorageError;

verus! {

/// The text of a column that may be empty or may have failed to be read: in
/// both cases there is none.
pub open spec fn readable(column: Result<Option<String>, StorageError>) -> Option<Seq<char>> {
    match column {
        Ok(Some(text)) => Some(text@),
        _ => None,
    }
}

/// The ids that the joined column of a row holds. A column that is empty or
/// could not be read holds none, and a piece of it that is no id is passed
/// over: a listing never fails over this column.
pub fn joined_ids(column: &Result<Option<String>, StorageError>) -> (ids: Vec<i32>)
    ensures
        ids@ == id_list_of(readable(*column)),
{
    match column {
        Ok(Some(text)) => parse_id_list(text.as_str()),
        _ => Vec::new(),
    }
}

/// One row of a selection of accounts: the columns of the account and the
/// column of its joined category ids.
#[derive(Debug, PartialEq, Eq)]
pub struct AccountRow {
    pub id: Option<i32>,
    pub name: String,
    pub username: String,
    pub password: String,
    pub sequence: Option<i32>,
    pub liked: Option<bool>,
    pub description: Option<String>,
    pub last_update_time: Option<String>,
    pub account_category_ids: Result<Option<String>, StorageError>,
}

impl AccountRow {
    /// The account that this row stands for.
    pub open spec fn account(self) -> AccountView {
        AccountView {
            id: self.id,
            name: self.name@,
            username: self.username@,
            password: self.password@,
            sequence: self.sequence,
            liked: self.liked,
            description: text_view(self.description),
            last_update_time: text_view(self.last_update_time),
            account_category_ids: Some(id_list_of(readable(self.account_category_ids))),
        }
    }

    /// The account that this row stands for: its columns as they are, and
    /// the ids of its joined column as its category ids, always present.
    pub fn into_account(self) -> (account: Account)
        ensures
            account@ == self.account(),
    {
        let ids = joined_ids(&self.account_category_ids);
        Account {
            id: self.id,
            name: self.name,
            username: self.username,
            password: self.password,
            sequence: self.sequence,
            liked: self.liked,
            description: self.description,
            last_update_time: self.last_update_time,
            account_category_ids: Some(ids),
        }
    }
}

/// One row of a selection of categories: the columns of the category and the
/// column of its joined account ids.
#[derive(Debug, PartialEq, Eq)]
pub struct CategoryRow {
    pub id: Option<i32>,
    pub name: String,
    pub sequence: Option<i32>,
    pub last_update_time: Option<String>,
    pub account_ids: Result<Option<String>, StorageError>,
}

impl CategoryRow {
    /// The category that this row stands for.
    pub open spec fn category(self) -> CategoryView {
        CategoryView {
            id: self.id,
            name: self.name@,
            sequence: self.sequence,
            last_update_time: text_view(self.last_update_time),
            account_ids: Some(id_list_of(readable(self.account_ids))),
        }
    }

    /// The category that this row stands for: its columns as they are, and
    /// the ids of its joined column as its account ids, always present.
    pub fn into_category(self) -> (category: Category)
        ensures
            category@ == self.category(),
    {
        let ids = joined_ids(&self.account_ids);
        Category {
            id: self.id,
            name: self.name,
            sequence: self.sequence,
            last_update_time: self.last_update_time,
            account_ids: Some(ids),
        }
    }
}

/// Whether `at` is the place of the first row that failed to be read.
pub open spec fn first_failure<T>(rows: Seq<Result<T, StorageError>>, at: int) -> bool {
    &&& 0 <= at < rows.len()
    &&& rows[at] is Err
    &&& forall|i: int| 0 <= i < at ==> (#[trigger] rows[i]) is Ok
}

/// Whether every row was read.
pub open spec fn all_read<T>(rows: Seq<Result<T, StorageError>>) -> bool {
    forall|i: int| 0 <= i < rows.len() ==> (#[trigger] rows[i]) is Ok
}

/// The accounts of a selection, in the order of its rows. The listing fails
/// as a whole, with the failure of the first row that could not be read,
/// where there is one.
pub fn read_accounts(rows: Vec<Result<AccountRow, StorageError>>) -> (result: Result<
    Vec<Account>,
    StorageError,
>)
    ensures
        match result {
            Ok(accounts) => {
                &&& all_read(rows@)
                &&& accounts.len() == rows.len()
                &&& forall|i: int|
                    0 <= i < rows.len() ==> (#[trigger] accounts[i])@ == rows[i]->Ok_0.account()
            },
            Err(e) => exists|at: int| first_failure(rows@, at) && rows[at] == Err::<AccountRow, _>(e),
        },
{
    let mut accounts: Vec<Account> = Vec::new();
    let ghost all = rows@;
    for row in it: rows
        invariant
            it.seq() == all,
            accounts.len() == it.index(),
            forall|i: int| 0 <= i < it.index() ==> (#[trigger] all[i]) is Ok,
            forall|i: int|
                0 <= i < it.index() ==> (#[trigger] accounts[i])@ == all[i]->Ok_0.account(),
    {
        match row {
            Ok(row) => {
                accounts.push(row.into_account());
            },
            Err(e) => {
                assert(first_failure(all, it.index() as int));
                return Err(e);
            },
        }
    }
    Ok(accounts)
}

/// The categories of a selection, in the order of its rows. The listing
/// fails as a whole, with the failure of the first row that could not be
/// read, where there is one.
pub fn read_categories(rows: Vec<Result<CategoryRow, StorageError>>) -> (result: Result<
    Vec<Category>,
    StorageError,
>)
    ensures
        match result {
            Ok(categories) => {
                &&& all_read(rows@)
                &&& categories.len() == rows.len()
                &&& forall|i: int|
                    0 <= i < rows.len() ==> (#[trigger] categories[i])@
                        == rows[i]->Ok_0.category()
            },
            Err(e) => exists|at: int|
                first_failure(rows@, at) && rows[at] == Err::<CategoryRow, _>(e),
        },
{
    let mut categories: Vec<Category> = Vec::new();
    let ghost all = rows@;
    for row in it: rows
        invariant
            it.seq() == all,
            categories.len() == it.index(),
            forall|i: int| 0 <= i < it.index() ==> (#[trigger] all[i]) is Ok,
            forall|i: int|
                0 <= i < it.index() ==> (#[trigger] categories[i])@ == all[i]->Ok_0.category(),
    {
        match row {
            Ok(row) => {
                categories.push(row.into_category());
            },
            Err(e) => {
                assert(first_failure(all, it.index() as int));
                return Err(e);
            },
        }
    }
    Ok(categories)
}

} // verus!
