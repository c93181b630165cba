//! What the store holds, as far as this library speaks of it: the rows of
//! the accounts and of the categories by their ids, and the rows of the
//! links between them. The operations of a unit of work are given their
//! meaning here, and so are the conditions of a filter.

use vstd::prelude::*;
use crate::entity::{AccountRecordView, CategoryRecordView};
use crate::filter::ConditionView;
use crate::plan::OpView;

verus! {

/// One row of the link table.
pub struct Link {
    pub account_id: int,
    pub category_id: int,
}

/// The contents of the store.
#[verifier::ext_equal]
pub struct Store {
    pub accounts: Map<int, AccountRecordView>,
    pub categories: Map<int, CategoryRecordView>,
    pub links: Seq<Link>,
}

/// The ids as integers.
pub open spec fn ints(ids: Seq<i32>) -> Seq<int> {
    ids.map_values(|id: i32| id as int)
}

/// The link rows that are left when those of one account are deleted.
pub open spec fn without_account(links: Seq<Link>, account_id: int) -> Seq<Link>
    decreases links.len(),
{
    if links.len() == 0 {
        Seq::empty()
    } else {
        let before = without_account(links.drop_last(), account_id);
        if links.last().account_id == account_id {
            before
        } else {
            before.push(links.last())
        }
    }
}

/// The link rows that are left when those of one category are deleted.
pub open spec fn without_category(links: Seq<Link>, category_id: int) -> Seq<Link>
    decreases links.len(),
{
    if links.len() == 0 {
        Seq::empty()
    } else {
        let before = without_category(links.drop_last(), category_id);
        if links.last().category_id == category_id {
            before
        } else {
            before.push(links.last())
        }
    }
}

/// The categories that the link rows give to one account, one for each row.
pub open spec fn categories_of(links: Seq<Link>, account_id: int) -> Seq<int>
    decreases links.len(),
{
    if links.len() == 0 {
        Seq::empty()
    } else {
        let before = categories_of(links.drop_last(), account_id);
        if links.last().account_id == account_id {
            before.push(links.last().category_id)
        } else {
            before
        }
    }
}

/// The accounts that the link rows give to one category, one for each row.
pub open spec fn accounts_of(links: Seq<Link>, category_id: int) -> Seq<int>
    decreases links.len(),
{
    if links.len() == 0 {
        Seq::empty()
    } else {
        let before = accounts_of(links.drop_last(), category_id);
        if links.last().category_id == category_id {
            before.push(links.last().account_id)
        } else {
            before
        }
    }
}

/// Whether `part` occurs in `text`, letter for letter.
pub open spec fn contains_text(text: Seq<char>, part: Seq<char>) -> bool {
    exists|at: int|
        0 <= at && at + part.len() <= text.len() && #[trigger] text.subrange(
            at,
            at + part.len(),
        ) == part
}

impl Store {
    /// The store after one operation, where `inserted` is the id that the
    /// store gives to a row that the operation inserts, and that a link to
    /// the inserted row names.
    pub open spec fn apply(self, op: OpView, inserted: i64) -> Store {
        match op {
            OpView::InsertAccount(record) => Store {
                accounts: self.accounts.insert(inserted as int, record),
                ..self
            },
            OpView::UpdateAccount(id, record) => if self.accounts.dom().contains(id as int) {
                Store { accounts: self.accounts.insert(id as int, record), ..self }
            } else {
                self
            },
            OpView::SetLiked(id, liked) => if self.accounts.dom().contains(id as int) {
                Store {
                    accounts: self.accounts.insert(
                        id as int,
                        AccountRecordView { liked, ..self.accounts[id as int] },
                    ),
                    ..self
                }
            } else {
                self
            },
            OpView::DeleteAccount(id) => Store { accounts: self.accounts.remove(id as int), ..self },
            OpView::InsertCategory(record) => Store {
                categories: self.categories.insert(inserted as int, record),
                ..self
            },
            OpView::UpdateCategory(id, record) => if self.categories.dom().contains(id as int) {
                Store { categories: self.categories.insert(id as int, record), ..self }
            } else {
                self
            },
            OpView::DeleteCategory(id) => Store {
                categories: self.categories.remove(id as int),
                ..self
            },
            OpView::Link(account, category) => Store {
                links: self.links.push(
                    Link {
                        account_id: account.resolved(inserted) as int,
                        category_id: category.resolved(inserted) as int,
                    },
                ),
                ..self
            },
            OpView::UnlinkAccount(id) => Store {
                links: without_account(self.links, id as int),
                ..self
            },
            OpView::UnlinkCategory(id) => Store {
                links: without_category(self.links, id as int),
                ..self
            },
        }
    }

    /// The store after the operations of a unit of work, in their order.
    pub open spec fn run(self, ops: Seq<OpView>, inserted: i64) -> Store
        decreases ops.len(),
    {
        if ops.len() == 0 {
            self
        } else {
            self.run(ops.drop_last(), inserted).apply(ops.last(), inserted)
        }
    }

    /// Whether a link row joins this account and this category.
    pub open spec fn linked(self, account_id: int, category_id: int) -> bool {
        exists|i: int|
            0 <= i < self.links.len() && (#[trigger] self.links[i]) == (Link {
                account_id,
                category_id,
            })
    }

    /// Whether the account `id` meets a condition.
    pub open spec fn holds(self, id: int, condition: ConditionView) -> bool {
        match condition {
            ConditionView::NameContains(part) => contains_text(self.accounts[id].name, part),
            ConditionView::UsernameContains(part) => contains_text(
                self.accounts[id].username,
                part,
            ),
            ConditionView::LikedIs(liked) => self.accounts[id].liked == liked,
            ConditionView::InCategory(category_id) => self.linked(id, category_id as int),
        }
    }

    /// Whether the account `id` meets one of the conditions of a clause.
    pub open spec fn meets(self, id: int, alternatives: Seq<ConditionView>) -> bool {
        exists|k: int| 0 <= k < alternatives.len() && self.holds(id, #[trigger] alternatives[k])
    }

    /// Whether a filter admits the account `id`: it meets every clause.
    pub open spec fn admits(self, id: int, clauses: Seq<Seq<ConditionView>>) -> bool {
        forall|j: int| 0 <= j < clauses.len() ==> self.meets(id, #[trigger] clauses[j])
    }

    /// The ids of the accounts that a selection with this filter lists.
    pub open spec fn listing(self, clauses: Seq<Seq<ConditionView>>) -> Set<int> {
        Set::new(|id: int| self.accounts.dom().contains(id) && self.admits(id, clauses))
    }
}

/// The store as a transaction sees it: what is committed, and while a
/// transaction is open what its statements have made of that so far.
#[verifier::ext_equal]
pub struct Session {
    pub committed: Store,
    pub pending: Option<Store>,
}

impl Session {
    /// The store with no transaction open.
    pub open spec fn at_rest(store: Store) -> Session {
        Session { committed: store, pending: None }
    }
}

} // verus!
