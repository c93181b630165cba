//! The entities of the store: what callers hand in and get back, and what
//! each of them holds at rest once the defaults have been applied.

use vstd::prelude::*;

verus! {

/// Display order of a row whose `sequence` was left unset.
pub const DEFAULT_SEQUENCE: i32 = 1;

/// The liked flag of an account whose `liked` was left unset.
pub const DEFAULT_LIKED: bool = false;

/// The note stored for an account that comes without one, or with an empty one.
pub const DEFAULT_DESCRIPTION: &'static str = "这个人好懒,没有给他写备注信息呢┓(´∀`)┏";

/// The placeholder note is not the empty text.
pub proof fn lemma_default_description_not_empty()
    ensures
        DEFAULT_DESCRIPTION@.len() > 0,
{
    reveal_strlit("这个人好懒,没有给他写备注信息呢┓(´∀`)┏");
}

/// The characters of an optional text.
pub open spec fn text_view(text: Option<String>) -> Option<Seq<char>> {
    match text {
        Some(t) => Some(t@),
        None => None,
    }
}

/// The ids of an optional id list.
pub open spec fn ids_view(ids: Option<Vec<i32>>) -> Option<Seq<i32>> {
    match ids {
        Some(v) => Some(v@),
        None => None,
    }
}

/// The ids that an optional id list asks to be linked: none when it is absent.
pub open spec fn requested_ids(ids: Option<Seq<i32>>) -> Seq<i32> {
    match ids {
        Some(v) => v,
        None => Seq::empty(),
    }
}

/// An account as callers hand it in and get it back. `id` is absent until the
/// account is persisted; `last_update_time` is set by the store alone;
/// `account_category_ids` travels with the account but is no column of it.
#[derive(Debug, Clone, PartialEq, Eq)]
pub struct Account {
    pub id: Option<i32>,
    pub name: String,
    pub username: String,
    pub password: String,
    pub sequence: Option<i32>,
    pub liked: Option<bool>,
    pub description: Option<String>,
    pub last_update_time: Option<String>,
    pub account_category_ids: Option<Vec<i32>>,
}

#[verifier::ext_equal]
pub struct AccountView {
    pub id: Option<i32>,
    pub name: Seq<char>,
    pub username: Seq<char>,
    pub password: Seq<char>,
    pub sequence: Option<i32>,
    pub liked: Option<bool>,
    pub description: Option<Seq<char>>,
    pub last_update_time: Option<Seq<char>>,
    pub account_category_ids: Option<Seq<i32>>,
}

impl View for Account {
    type V = AccountView;

    open spec fn view(&self) -> AccountView {
        AccountView {
            id: self.id,
            name: self.name@,
            username: self.username@,
            password: self.password@,
            sequence: self.sequence,
            liked: self.liked,
            description: text_view(self.description),
            last_update_time: text_view(self.last_update_time),
            account_category_ids: ids_view(self.account_category_ids),
        }
    }
}

/// The columns of an account that a write sets: every one has a value.
#[derive(Debug, Clone, PartialEq, Eq)]
pub struct AccountRecord {
    pub name: String,
    pub username: String,
    pub password: String,
    pub sequence: i32,
    pub liked: bool,
    pub description: String,
}

#[verifier::ext_equal]
pub struct AccountRecordView {
    pub name: Seq<char>,
    pub username: Seq<char>,
    pub password: Seq<char>,
    pub sequence: i32,
    pub liked: bool,
    pub description: Seq<char>,
}

impl View for AccountRecord {
    type V = AccountRecordView;

    open spec fn view(&self) -> AccountRecordView {
        AccountRecordView {
            name: self.name@,
            username: self.username@,
            password: self.password@,
            sequence: self.sequence,
            liked: self.liked,
            description: self.description@,
        }
    }
}

impl AccountView {
    /// The liked flag that a write or a filter takes from this account.
    pub open spec fn liked_or_default(self) -> bool {
        match self.liked {
            Some(l) => l,
            None => DEFAULT_LIKED,
        }
    }

    /// The note that a write stores: the account's own unless it is absent or empty.
    pub open spec fn description_or_default(self) -> Seq<char> {
        match self.description {
            Some(d) => if d.len() == 0 {
                DEFAULT_DESCRIPTION@
            } else {
                d
            },
            None => DEFAULT_DESCRIPTION@,
        }
    }

    /// What a write of this account puts into its row.
    pub open spec fn record(self) -> AccountRecordView {
        AccountRecordView {
            name: self.name,
            username: self.username,
            password: self.password,
            sequence: match self.sequence {
                Some(s) => s,
                None => DEFAULT_SEQUENCE,
            },
            liked: self.liked_or_default(),
            description: self.description_or_default(),
        }
    }

    /// The categories that a write links this account to.
    pub open spec fn category_ids(self) -> Seq<i32> {
        requested_ids(self.account_category_ids)
    }
}

impl Account {
    /// The liked flag of this account, `false` where it is unset.
    pub fn liked_or_default(&self) -> (liked: bool)
        ensures
            liked == self@.liked_or_default(),
    {
        match self.liked {
            Some(l) => l,
            None => DEFAULT_LIKED,
        }
    }

    /// The columns that a write of this account sets, with the defaults in
    /// place of what is unset: sequence 1, not liked, the placeholder note.
    pub fn record(&self) -> (record: AccountRecord)
        ensures
            record@ == self@.record(),
    {
        let sequence: i32 = match self.sequence {
            Some(s) => s,
            None => DEFAULT_SEQUENCE,
        };
        let description = match &self.description {
            Some(d) => if d.as_str().is_empty() {
                String::from_str(DEFAULT_DESCRIPTION)
            } else {
                d.clone()
            },
            None => String::from_str(DEFAULT_DESCRIPTION),
        };
        AccountRecord {
            name: self.name.clone(),
            username: self.username.clone(),
            password: self.password.clone(),
            sequence,
            liked: self.liked_or_default(),
            description,
        }
    }
}

/// A category as callers hand it in and get it back. `account_ids` travels
/// with the category but is no column of it.
#[derive(Debug, Clone, PartialEq, Eq)]
pub struct Category {
    pub id: Option<i32>,
    pub name: String,
    pub sequence: Option<i32>,
    pub last_update_time: Option<String>,
    pub account_ids: Option<Vec<i32>>,
}

#[verifier::ext_equal]
pub struct CategoryView {
    pub id: Option<i32>,
    pub name: Seq<char>,
    pub sequence: Option<i32>,
    pub last_update_time: Option<Seq<char>>,
    pub account_ids: Option<Seq<i32>>,
}

impl View for Category {
    type V = CategoryView;

    open spec fn view(&self) -> CategoryView {
        CategoryView {
            id: self.id,
            name: self.name@,
            sequence: self.sequence,
            last_update_time: text_view(self.last_update_time),
            account_ids: ids_view(self.account_ids),
        }
    }
}

/// The columns of a category that a write sets.
#[derive(Debug, Clone, PartialEq, Eq)]
pub struct CategoryRecord {
    pub name: String,
    pub sequence: i32,
}

#[verifier::ext_equal]
pub struct CategoryRecordView {
    pub name: Seq<char>,
    pub sequence: i32,
}

impl View for CategoryRecord {
    type V = CategoryRecordView;

    open spec fn view(&self) -> CategoryRecordView {
        CategoryRecordView { name: self.name@, sequence: self.sequence }
    }
}

impl CategoryView {
    /// What a write of this category puts into its row.
    pub open spec fn record(self) -> CategoryRecordView {
        CategoryRecordView {
            name: self.name,
            sequence: match self.sequence {
                Some(s) => s,
                None => DEFAULT_SEQUENCE,
            },
        }
    }

    /// The accounts that a write links this category to.
    pub open spec fn linked_account_ids(self) -> Seq<i32> {
        requested_ids(self.account_ids)
    }
}

impl Category {
    /// The columns that a write of this category sets, with sequence 1 where
    /// it is unset.
    pub fn record(&self) -> (record: CategoryRecord)
        ensures
            record@ == self@.record(),
    {
        let sequence: i32 = match self.sequence {
            Some(s) => s,
            None => DEFAULT_SEQUENCE,
        };
        CategoryRecord { name: self.name.clone(), sequence }
    }
}

/// A group: a tag of the same shape as a category, without a link list.
#[derive(Debug, Clone, PartialEq, Eq)]
pub struct Group {
    pub id: Option<i32>,
    pub name: String,
    pub sequence: Option<i32>,
    pub last_update_time: Option<String>,
}

/// One row of the relation between accounts and categories.
#[derive(Debug, Clone, PartialEq, Eq)]
pub struct AccountCategory {
    pub id: Option<i32>,
    pub account_id: i32,
    pub category_id: i32,
    pub last_update_time: Option<String>,
}

/// One row of the relation between accounts and groups.
#[derive(Debug, Clone, PartialEq, Eq)]
pub struct AccountGroup {
    pub id: Option<i32>,
    pub account_id: i32,
    pub group_id: i32,
    pub last_update_time: Option<String>,
}

} // verus!
