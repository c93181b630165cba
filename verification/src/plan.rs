//! Units of work: what a save, an update or a delete asks of the store, as a
//! list of operations that take effect together or not at all.

use vstd::prelude::*;
use crate::entity::{
    ids_view, requested_ids, Account, AccountRecord, AccountRecordView, AccountView, Category,
    CategoryRecord, CategoryRecordView, CategoryView,
};
use crate::statement::{views, Param, ParamView, Statement, StatementView};

verus! {

pub const INSERT_ACCOUNT: &'static str =
    "INSERT INTO account (name, username, password, sequence, liked, description) VALUES (?, ?, ?, ?, ?, ?)";

pub const UPDATE_ACCOUNT: &'static str =
    "UPDATE account SET name = ?, username = ?, password = ?, sequence = ?, liked = ?, description = ? WHERE id = ?";

pub const SET_LIKED: &'static str = "UPDATE account SET liked = ? WHERE id = ?";

pub const DELETE_ACCOUNT: &'static str = "DELETE FROM account WHERE id = ?";

pub const INSERT_CATEGORY: &'static str = "INSERT INTO category (name, sequence) VALUES (?, ?)";

pub const UPDATE_CATEGORY: &'static str = "UPDATE category SET name = ?, sequence = ? WHERE id = ?";

pub const DELETE_CATEGORY: &'static str = "DELETE FROM category WHERE id = ?";

pub const INSERT_LINK: &'static str =
    "INSERT INTO account_category (account_id, category_id) VALUES (?, ?)";

pub const DELETE_LINKS_OF_ACCOUNT: &'static str = "DELETE FROM account_category WHERE account_id = ?";

pub const DELETE_LINKS_OF_CATEGORY: &'static str =
    "DELETE FROM account_category WHERE category_id = ?";

/// One end of a link: a row that is named by its id, or the row that the
/// unit of work itself inserts, whose id only the store can tell.
#[derive(Debug, Clone, Copy, PartialEq, Eq, Structural)]
pub enum End {
    Row(i32),
    Inserted,
}

impl End {
    /// The id that this end stands for once the store has assigned `inserted`.
    pub open spec fn resolved(self, inserted: i64) -> i64 {
        match self {
            End::Row(id) => id as i64,
            End::Inserted => inserted,
        }
    }

    /// The id that this end stands for once the store has assigned `inserted`
    /// to the row that the unit of work inserted.
    pub fn resolve(self, inserted: i64) -> (id: i64)
        ensures
            id == self.resolved(inserted),
    {
        match self {
            End::Row(id) => id as i64,
            End::Inserted => inserted,
        }
    }
}

/// One operation on the store.
#[derive(Debug, Clone, PartialEq, Eq)]
pub enum Op {
    /// Insert an account row; the store assigns its id.
    InsertAccount(AccountRecord),
    /// Set every column of the account row with this id.
    UpdateAccount(i32, AccountRecord),
    /// Set the liked flag of the account row with this id.
    SetLiked(i32, bool),
    /// Delete the account row with this id.
    DeleteAccount(i32),
    /// Insert a category row; the store assigns its id.
    InsertCategory(CategoryRecord),
    /// Set every column of the category row with this id.
    UpdateCategory(i32, CategoryRecord),
    /// Delete the category row with this id.
    DeleteCategory(i32),
    /// Insert one link row between an account and a category.
    Link(End, End),
    /// Delete every link row of this account.
    UnlinkAccount(i32),
    /// Delete every link row of this category.
    UnlinkCategory(i32),
}

#[verifier::ext_equal]
pub enum OpView {
    InsertAccount(AccountRecordView),
    UpdateAccount(i32, AccountRecordView),
    SetLiked(i32, bool),
    DeleteAccount(i32),
    InsertCategory(CategoryRecordView),
    UpdateCategory(i32, CategoryRecordView),
    DeleteCategory(i32),
    Link(End, End),
    UnlinkAccount(i32),
    UnlinkCategory(i32),
}

impl View for Op {
    type V = OpView;

    open spec fn view(&self) -> OpView {
        match self {
            Op::InsertAccount(r) => OpView::InsertAccount(r@),
            Op::UpdateAccount(id, r) => OpView::UpdateAccount(*id, r@),
            Op::SetLiked(id, liked) => OpView::SetLiked(*id, *liked),
            Op::DeleteAccount(id) => OpView::DeleteAccount(*id),
            Op::InsertCategory(r) => OpView::InsertCategory(r@),
            Op::UpdateCategory(id, r) => OpView::UpdateCategory(*id, r@),
            Op::DeleteCategory(id) => OpView::DeleteCategory(*id),
            Op::Link(account, category) => OpView::Link(*account, *category),
            Op::UnlinkAccount(id) => OpView::UnlinkAccount(*id),
            Op::UnlinkCategory(id) => OpView::UnlinkCategory(*id),
        }
    }
}

/// The values that a write of an account row binds, in the order of its columns.
pub open spec fn account_params(record: AccountRecordView) -> Seq<ParamView> {
    seq![
        ParamView::Text(record.name),
        ParamView::Text(record.username),
        ParamView::Text(record.password),
        ParamView::Integer(record.sequence as i64),
        ParamView::Flag(record.liked),
        ParamView::Text(record.description),
    ]
}

/// The values that a write of a category row binds, in the order of its columns.
pub open spec fn category_params(record: CategoryRecordView) -> Seq<ParamView> {
    seq![ParamView::Text(record.name), ParamView::Integer(record.sequence as i64)]
}

impl OpView {
    /// Whether the store assigns a new id in this operation.
    pub open spec fn inserts_parent(self) -> bool {
        self is InsertAccount || self is InsertCategory
    }

    /// The statement that carries this operation out, where `inserted` is the
    /// id that the store gave to the row that the unit of work inserted.
    pub open spec fn statement(self, inserted: i64) -> StatementView {
        match self {
            OpView::InsertAccount(r) => StatementView {
                sql: INSERT_ACCOUNT@,
                params: account_params(r),
            },
            OpView::UpdateAccount(id, r) => StatementView {
                sql: UPDATE_ACCOUNT@,
                params: account_params(r).push(ParamView::Integer(id as i64)),
            },
            OpView::SetLiked(id, liked) => StatementView {
                sql: SET_LIKED@,
                params: seq![ParamView::Flag(liked), ParamView::Integer(id as i64)],
            },
            OpView::DeleteAccount(id) => StatementView {
                sql: DELETE_ACCOUNT@,
                params: seq![ParamView::Integer(id as i64)],
            },
            OpView::InsertCategory(r) => StatementView {
                sql: INSERT_CATEGORY@,
                params: category_params(r),
            },
            OpView::UpdateCategory(id, r) => StatementView {
                sql: UPDATE_CATEGORY@,
                params: category_params(r).push(ParamView::Integer(id as i64)),
            },
            OpView::DeleteCategory(id) => StatementView {
                sql: DELETE_CATEGORY@,
                params: seq![ParamView::Integer(id as i64)],
            },
            OpView::Link(account, category) => StatementView {
                sql: INSERT_LINK@,
                params: seq![
                    ParamView::Integer(account.resolved(inserted)),
                    ParamView::Integer(category.resolved(inserted)),
                ],
            },
            OpView::UnlinkAccount(id) => StatementView {
                sql: DELETE_LINKS_OF_ACCOUNT@,
                params: seq![ParamView::Integer(id as i64)],
            },
            OpView::UnlinkCategory(id) => StatementView {
                sql: DELETE_LINKS_OF_CATEGORY@,
                params: seq![ParamView::Integer(id as i64)],
            },
        }
    }
}

fn bind_account(record: &AccountRecord) -> (params: Vec<Param>)
    ensures
        views(params@) == account_params(record@),
{
    let params = vec![
        Param::Text(record.name.clone()),
        Param::Text(record.username.clone()),
        Param::Text(record.password.clone()),
        Param::Integer(record.sequence as i64),
        Param::Flag(record.liked),
        Param::Text(record.description.clone()),
    ];
    params
}

fn bind_category(record: &CategoryRecord) -> (params: Vec<Param>)
    ensures
        views(params@) == category_params(record@),
{
    let params = vec![Param::Text(record.name.clone()), Param::Integer(record.sequence as i64)];
    params
}

impl Op {
    /// Whether the store assigns a new id in this operation.
    pub fn inserts_parent(&self) -> (inserts: bool)
        ensures
            inserts == self@.inserts_parent(),
    {
        match self {
            Op::InsertAccount(_) => true,
            Op::InsertCategory(_) => true,
            _ => false,
        }
    }

    /// The statement that carries this operation out. `inserted` is the id
    /// that the store gave to the row that the unit of work inserted; only a
    /// link to that row reads it.
    pub fn statement(&self, inserted: i64) -> (statement: Statement)
        ensures
            statement@ == self@.statement(inserted),
    {
        match self {
            Op::InsertAccount(r) => Statement::bound(INSERT_ACCOUNT, bind_account(r)),
            Op::UpdateAccount(id, r) => {
                let mut params = bind_account(r);
                params.push(Param::Integer(*id as i64));
                Statement::bound(UPDATE_ACCOUNT, params)
            },
            Op::SetLiked(id, liked) => Statement::bound(
                SET_LIKED,
                vec![Param::Flag(*liked), Param::Integer(*id as i64)],
            ),
            Op::DeleteAccount(id) => Statement::bound(
                DELETE_ACCOUNT,
                vec![Param::Integer(*id as i64)],
            ),
            Op::InsertCategory(r) => Statement::bound(INSERT_CATEGORY, bind_category(r)),
            Op::UpdateCategory(id, r) => {
                let mut params = bind_category(r);
                params.push(Param::Integer(*id as i64));
                Statement::bound(UPDATE_CATEGORY, params)
            },
            Op::DeleteCategory(id) => Statement::bound(
                DELETE_CATEGORY,
                vec![Param::Integer(*id as i64)],
            ),
            Op::Link(account, category) => Statement::bound(
                INSERT_LINK,
                vec![
                    Param::Integer(account.resolve(inserted)),
                    Param::Integer(category.resolve(inserted)),
                ],
            ),
            Op::UnlinkAccount(id) => Statement::bound(
                DELETE_LINKS_OF_ACCOUNT,
                vec![Param::Integer(*id as i64)],
            ),
            Op::UnlinkCategory(id) => Statement::bound(
                DELETE_LINKS_OF_CATEGORY,
                vec![Param::Integer(*id as i64)],
            ),
        }
    }
}

/// One link from `account` to each of `categories`, in their order.
pub open spec fn account_links(account: End, categories: Seq<i32>) -> Seq<OpView> {
    Seq::new(categories.len(), |i: int| OpView::Link(account, End::Row(categories[i])))
}

/// One link from each of `accounts` to `category`, in their order.
pub open spec fn category_links(category: End, accounts: Seq<i32>) -> Seq<OpView> {
    Seq::new(accounts.len(), |i: int| OpView::Link(End::Row(accounts[i]), category))
}

/// The unit of work that creates an account: its row, then one link from the
/// new row to each category it names.
pub open spec fn account_insertion(account: AccountView) -> Seq<OpView> {
    seq![OpView::InsertAccount(account.record())] + account_links(
        End::Inserted,
        account.category_ids(),
    )
}

/// The unit of work that updates an account: its row, then every link it had
/// is dropped, then one link to each category it names. Without an id it is
/// the unit of work that creates the account.
pub open spec fn account_update(account: AccountView) -> Seq<OpView> {
    match account.id {
        Some(id) => seq![OpView::UpdateAccount(id, account.record()), OpView::UnlinkAccount(id)]
            + account_links(End::Row(id), account.category_ids()),
        None => account_insertion(account),
    }
}

/// The unit of work that deletes an account: its links, then its row.
pub open spec fn account_deletion(id: i32) -> Seq<OpView> {
    seq![OpView::UnlinkAccount(id), OpView::DeleteAccount(id)]
}

/// The unit of work that creates a category: its row, then one link from each
/// account it names to the new row.
pub open spec fn category_insertion(category: CategoryView) -> Seq<OpView> {
    seq![OpView::InsertCategory(category.record())] + category_links(
        End::Inserted,
        category.linked_account_ids(),
    )
}

/// The unit of work that updates a category: its row, then every link it had
/// is dropped, then one link from each account it names. Without an id it is
/// the unit of work that creates the category.
pub open spec fn category_update(category: CategoryView) -> Seq<OpView> {
    match category.id {
        Some(id) => seq![
            OpView::UpdateCategory(id, category.record()),
            OpView::UnlinkCategory(id),
        ] + category_links(End::Row(id), category.linked_account_ids()),
        None => category_insertion(category),
    }
}

/// The unit of work that deletes a category: its links, then its row.
pub open spec fn category_deletion(id: i32) -> Seq<OpView> {
    seq![OpView::UnlinkCategory(id), OpView::DeleteCategory(id)]
}

fn push_account_links(ops: &mut Vec<Op>, account: End, categories: &Option<Vec<i32>>)
    ensures
        views(final(ops)@) == views(old(ops)@) + account_links(
            account,
            requested_ids(ids_view(*categories)),
        ),
{
    if let Some(ids) = categories {
        let mut i: usize = 0;
        while i < ids.len()
            invariant
                i <= ids.len(),
                views(ops@) == views(old(ops)@) + account_links(account, ids@.take(i as int)),
            decreases ids.len() - i,
        {
            let ghost before = ops@;
            ops.push(Op::Link(account, End::Row(ids[i])));
            i = i + 1;
            assert(views(ops@) =~= views(before).push(
                OpView::Link(account, End::Row(ids@[i - 1])),
            ));
            assert(account_links(account, ids@.take(i as int)) =~= account_links(
                account,
                ids@.take(i - 1),
            ).push(OpView::Link(account, End::Row(ids@[i - 1]))));
        }
        assert(ids@.take(ids.len() as int) == ids@);
    }
}

fn push_category_links(ops: &mut Vec<Op>, category: End, accounts: &Option<Vec<i32>>)
    ensures
        views(final(ops)@) == views(old(ops)@) + category_links(
            category,
            requested_ids(ids_view(*accounts)),
        ),
{
    if let Some(ids) = accounts {
        let mut i: usize = 0;
        while i < ids.len()
            invariant
                i <= ids.len(),
                views(ops@) == views(old(ops)@) + category_links(category, ids@.take(i as int)),
            decreases ids.len() - i,
        {
            let ghost before = ops@;
            ops.push(Op::Link(End::Row(ids[i]), category));
            i = i + 1;
            assert(views(ops@) =~= views(before).push(
                OpView::Link(End::Row(ids@[i - 1]), category),
            ));
            assert(category_links(category, ids@.take(i as int)) =~= category_links(
                category,
                ids@.take(i - 1),
            ).push(OpView::Link(End::Row(ids@[i - 1]), category)));
        }
        assert(ids@.take(ids.len() as int) == ids@);
    }
}

/// What creating `account` asks of the store: one row with the account's
/// columns, the defaults in place of what is unset, and one link from that row
/// to each category id the account carries. Whatever id the account carries is
/// not used: the store assigns one.
pub fn insert_account(account: &Account) -> (plan: Vec<Op>)
    ensures
        views(plan@) == account_insertion(account@),
{
    let mut plan: Vec<Op> = Vec::new();
    plan.push(Op::InsertAccount(account.record()));
    push_account_links(&mut plan, End::Inserted, &account.account_category_ids);
    plan
}

/// What updating `account` asks of the store: every column of its row is set,
/// all its links are dropped, and one link is made to each category id it
/// carries, so that it ends with exactly those. An account without an id is
/// created instead.
pub fn update_account(account: &Account) -> (plan: Vec<Op>)
    ensures
        views(plan@) == account_update(account@),
{
    match account.id {
        Some(id) => {
            let mut plan: Vec<Op> = Vec::new();
            plan.push(Op::UpdateAccount(id, account.record()));
            plan.push(Op::UnlinkAccount(id));
            push_account_links(&mut plan, End::Row(id), &account.account_category_ids);
            plan
        },
        None => insert_account(account),
    }
}

/// What setting the liked flag of the account `id` asks of the store.
pub fn like_account(id: i32, liked: bool) -> (plan: Vec<Op>)
    ensures
        views(plan@) == seq![OpView::SetLiked(id, liked)],
{
    let mut plan: Vec<Op> = Vec::new();
    plan.push(Op::SetLiked(id, liked));
    plan
}

/// What deleting the account `id` asks of the store: its links go, then its row.
pub fn delete_by_id(id: i32) -> (plan: Vec<Op>)
    ensures
        views(plan@) == account_deletion(id),
{
    let mut plan: Vec<Op> = Vec::new();
    plan.push(Op::UnlinkAccount(id));
    plan.push(Op::DeleteAccount(id));
    plan
}

/// What creating `category` asks of the store: one row with its name and its
/// sequence (1 where unset), and one link to that row from each account id the
/// category carries.
pub fn create_category(category: &Category) -> (plan: Vec<Op>)
    ensures
        views(plan@) == category_insertion(category@),
{
    let mut plan: Vec<Op> = Vec::new();
    plan.push(Op::InsertCategory(category.record()));
    push_category_links(&mut plan, End::Inserted, &category.account_ids);
    plan
}

/// What updating `category` asks of the store: its row is set, all its links
/// are dropped, and one link is made from each account id it carries. A
/// category without an id is created instead.
pub fn update_category(category: &Category) -> (plan: Vec<Op>)
    ensures
        views(plan@) == category_update(category@),
{
    match category.id {
        Some(id) => {
            let mut plan: Vec<Op> = Vec::new();
            plan.push(Op::UpdateCategory(id, category.record()));
            plan.push(Op::UnlinkCategory(id));
            push_category_links(&mut plan, End::Row(id), &category.account_ids);
            plan
        },
        None => create_category(category),
    }
}

/// What deleting the category `id` asks of the store: its links go, then its row.
pub fn delete_category_by_id(id: i32) -> (plan: Vec<Op>)
    ensures
        views(plan@) == category_deletion(id),
{
    let mut plan: Vec<Op> = Vec::new();
    plan.push(Op::UnlinkCategory(id));
    plan.push(Op::DeleteCategory(id));
    plan
}

} // verus!
