//! What holds of the units of work and of the filters, proved over the
//! contents of the store.

use vstd::prelude::*;
use crate::entity::{
    lemma_default_description_not_empty, AccountView, CategoryView, DEFAULT_DESCRIPTION,
};
use crate::filter::{
    alternatives_text, clauses_text, search_clauses, selection, text_alternatives, ConditionView,
};
use crate::plan::{
    account_deletion, account_insertion, account_links, account_update, category_deletion,
    category_insertion, category_links, category_update, End, OpView,
};
use crate::outcome::StorageError;
use crate::store::{
    accounts_of, categories_of, contains_text, ints, without_account, without_category, Link,
    Session, Store,
};
use crate::work::{CommandView, Reply, Stage, WorkView};

verus! {

/// Running one list of operations after another is running them as one list.
pub proof fn lemma_run_in_turn(store: Store, first: Seq<OpView>, second: Seq<OpView>, inserted: i64)
    ensures
        store.run(first + second, inserted) == store.run(first, inserted).run(second, inserted),
    decreases second.len(),
{
    if second.len() == 0 {
        assert(first + second =~= first);
    } else {
        assert((first + second).drop_last() =~= first + second.drop_last());
        lemma_run_in_turn(store, first, second.drop_last(), inserted);
    }
}

/// The link rows that join one account to each of `categories`.
pub open spec fn rows_of_account(account_id: int, categories: Seq<i32>) -> Seq<Link> {
    Seq::new(categories.len(), |i: int| Link { account_id, category_id: categories[i] as int })
}

/// The link rows that join each of `accounts` to one category.
pub open spec fn rows_of_category(category_id: int, accounts: Seq<i32>) -> Seq<Link> {
    Seq::new(accounts.len(), |i: int| Link { account_id: accounts[i] as int, category_id })
}

/// Linking an account to categories adds one row for each and touches
/// nothing else.
pub proof fn lemma_run_account_links(
    store: Store,
    account: End,
    categories: Seq<i32>,
    inserted: i64,
)
    ensures
        store.run(account_links(account, categories), inserted) == (Store {
            links: store.links + rows_of_account(account.resolved(inserted) as int, categories),
            ..store
        }),
    decreases categories.len(),
{
    let id = account.resolved(inserted) as int;
    if categories.len() == 0 {
        assert(store.links + rows_of_account(id, categories) =~= store.links);
    } else {
        let fewer = categories.drop_last();
        assert(account_links(account, categories).drop_last() =~= account_links(account, fewer));
        lemma_run_account_links(store, account, fewer, inserted);
        assert((store.links + rows_of_account(id, fewer)).push(
            Link { account_id: id, category_id: categories.last() as int },
        ) =~= store.links + rows_of_account(id, categories));
    }
}

/// Linking accounts to a category adds one row for each and touches nothing
/// else.
pub proof fn lemma_run_category_links(
    store: Store,
    category: End,
    accounts: Seq<i32>,
    inserted: i64,
)
    ensures
        store.run(category_links(category, accounts), inserted) == (Store {
            links: store.links + rows_of_category(category.resolved(inserted) as int, accounts),
            ..store
        }),
    decreases accounts.len(),
{
    let id = category.resolved(inserted) as int;
    if accounts.len() == 0 {
        assert(store.links + rows_of_category(id, accounts) =~= store.links);
    } else {
        let fewer = accounts.drop_last();
        assert(category_links(category, accounts).drop_last() =~= category_links(category, fewer));
        lemma_run_category_links(store, category, fewer, inserted);
        assert((store.links + rows_of_category(id, fewer)).push(
            Link { account_id: accounts.last() as int, category_id: id },
        ) =~= store.links + rows_of_category(id, accounts));
    }
}

pub proof fn lemma_categories_of_both(first: Seq<Link>, second: Seq<Link>, account_id: int)
    ensures
        categories_of(first + second, account_id) == categories_of(first, account_id)
            + categories_of(second, account_id),
    decreases second.len(),
{
    if second.len() == 0 {
        assert(first + second =~= first);
    } else {
        assert((first + second).drop_last() =~= first + second.drop_last());
        lemma_categories_of_both(first, second.drop_last(), account_id);
    }
}

pub proof fn lemma_accounts_of_both(first: Seq<Link>, second: Seq<Link>, category_id: int)
    ensures
        accounts_of(first + second, category_id) == accounts_of(first, category_id) + accounts_of(
            second,
            category_id,
        ),
    decreases second.len(),
{
    if second.len() == 0 {
        assert(first + second =~= first);
    } else {
        assert((first + second).drop_last() =~= first + second.drop_last());
        lemma_accounts_of_both(first, second.drop_last(), category_id);
    }
}

/// Deleting the links of one account leaves that account none and every
/// other account its own.
pub proof fn lemma_categories_without_account(links: Seq<Link>, removed: int, of: int)
    ensures
        categories_of(without_account(links, removed), of) == if of == removed {
            Seq::<int>::empty()
        } else {
            categories_of(links, of)
        },
    decreases links.len(),
{
    if links.len() > 0 {
        lemma_categories_without_account(links.drop_last(), removed, of);
        let before = without_account(links.drop_last(), removed);
        if links.last().account_id != removed {
            assert(before.push(links.last()).drop_last() =~= before);
        }
    }
}

/// Deleting the links of one account leaves no row that names it.
pub proof fn lemma_without_account_names_none(links: Seq<Link>, removed: int)
    ensures
        forall|i: int|
            0 <= i < without_account(links, removed).len() ==> (#[trigger] without_account(
                links,
                removed,
            )[i]).account_id != removed,
    decreases links.len(),
{
    if links.len() > 0 {
        lemma_without_account_names_none(links.drop_last(), removed);
        let before = without_account(links.drop_last(), removed);
        let now = without_account(links, removed);
        assert forall|i: int| 0 <= i < now.len() implies (#[trigger] now[i]).account_id
            != removed by {
            if i < before.len() {
                assert(now[i] == before[i]);
            }
        }
    }
}

/// Deleting the links of one account leaves every category the accounts it
/// had, but for that account.
pub proof fn lemma_accounts_without_account(links: Seq<Link>, removed: int, of: int)
    ensures
        accounts_of(without_account(links, removed), of) == accounts_of(links, of).filter(
            |account_id: int| account_id != removed,
        ),
    decreases links.len(),
{
    reveal(Seq::filter);
    if links.len() > 0 {
        lemma_accounts_without_account(links.drop_last(), removed, of);
        let before = without_account(links.drop_last(), removed);
        let last = links.last();
        if last.account_id != removed {
            assert(before.push(last).drop_last() =~= before);
        }
        if last.category_id == of {
            let had = accounts_of(links.drop_last(), of);
            assert(had.push(last.account_id).drop_last() =~= had);
        }
    }
}

/// Deleting the links of one category leaves that category none and every
/// other category its own.
pub proof fn lemma_accounts_without_category(links: Seq<Link>, removed: int, of: int)
    ensures
        accounts_of(without_category(links, removed), of) == if of == removed {
            Seq::<int>::empty()
        } else {
            accounts_of(links, of)
        },
    decreases links.len(),
{
    if links.len() > 0 {
        lemma_accounts_without_category(links.drop_last(), removed, of);
        let before = without_category(links.drop_last(), removed);
        if links.last().category_id != removed {
            assert(before.push(links.last()).drop_last() =~= before);
        }
    }
}

/// Deleting the links of one category leaves no row that names it.
pub proof fn lemma_without_category_names_none(links: Seq<Link>, removed: int)
    ensures
        forall|i: int|
            0 <= i < without_category(links, removed).len() ==> (#[trigger] without_category(
                links,
                removed,
            )[i]).category_id != removed,
    decreases links.len(),
{
    if links.len() > 0 {
        lemma_without_category_names_none(links.drop_last(), removed);
        let before = without_category(links.drop_last(), removed);
        let now = without_category(links, removed);
        assert forall|i: int| 0 <= i < now.len() implies (#[trigger] now[i]).category_id
            != removed by {
            if i < before.len() {
                assert(now[i] == before[i]);
            }
        }
    }
}

/// Deleting the links of one category leaves every account the categories it
/// had, but for that category.
pub proof fn lemma_categories_without_category(links: Seq<Link>, removed: int, of: int)
    ensures
        categories_of(without_category(links, removed), of) == categories_of(links, of).filter(
            |category_id: int| category_id != removed,
        ),
    decreases links.len(),
{
    reveal(Seq::filter);
    if links.len() > 0 {
        lemma_categories_without_category(links.drop_last(), removed, of);
        let before = without_category(links.drop_last(), removed);
        let last = links.last();
        if last.category_id != removed {
            assert(before.push(last).drop_last() =~= before);
        }
        if last.account_id == of {
            let had = categories_of(links.drop_last(), of);
            assert(had.push(last.category_id).drop_last() =~= had);
        }
    }
}

/// The rows that join one account to categories give that account exactly
/// those categories, and no other account any.
pub proof fn lemma_categories_of_rows(account_id: int, categories: Seq<i32>, of: int)
    ensures
        categories_of(rows_of_account(account_id, categories), of) == if of == account_id {
            ints(categories)
        } else {
            Seq::<int>::empty()
        },
    decreases categories.len(),
{
    let rows = rows_of_account(account_id, categories);
    if categories.len() == 0 {
        assert(ints(categories) =~= Seq::<int>::empty());
    } else {
        assert(rows.drop_last() =~= rows_of_account(account_id, categories.drop_last()));
        lemma_categories_of_rows(account_id, categories.drop_last(), of);
        assert(ints(categories.drop_last()).push(categories.last() as int) =~= ints(categories));
    }
}

/// The rows that join accounts to one category give that category exactly
/// those accounts, and no other category any.
pub proof fn lemma_accounts_of_rows(category_id: int, accounts: Seq<i32>, of: int)
    ensures
        accounts_of(rows_of_category(category_id, accounts), of) == if of == category_id {
            ints(accounts)
        } else {
            Seq::<int>::empty()
        },
    decreases accounts.len(),
{
    let rows = rows_of_category(category_id, accounts);
    if accounts.len() == 0 {
        assert(ints(accounts) =~= Seq::<int>::empty());
    } else {
        assert(rows.drop_last() =~= rows_of_category(category_id, accounts.drop_last()));
        lemma_accounts_of_rows(category_id, accounts.drop_last(), of);
        assert(ints(accounts.drop_last()).push(accounts.last() as int) =~= ints(accounts));
    }
}

/// Replacing the links of an account: after the update of an account that
/// has an id, the categories that the link rows give it are exactly those it
/// carried, whatever it had before, and every other account has the links it
/// had. The row of the account, where there is one, holds what the account
/// carried, with the defaults in place of what was unset.
pub proof fn law_update_replaces_links(store: Store, account: AccountView, inserted: i64)
    requires
        account.id is Some,
    ensures
        ({
            let id = account.id->0 as int;
            let after = store.run(account_update(account), inserted);
            &&& categories_of(after.links, id).to_multiset() == ints(
                account.category_ids(),
            ).to_multiset()
            &&& forall|other: int|
                other != id ==> #[trigger] categories_of(after.links, other) == categories_of(
                    store.links,
                    other,
                )
            &&& after.accounts.dom() == store.accounts.dom()
            &&& store.accounts.dom().contains(id) ==> after.accounts[id] == account.record()
            &&& forall|other: int|
                other != id && store.accounts.dom().contains(other) ==> #[trigger] after.accounts[other]
                    == store.accounts[other]
            &&& after.categories == store.categories
        }),
{
    let id = account.id->0;
    let categories = account.category_ids();
    let head = seq![OpView::UpdateAccount(id, account.record()), OpView::UnlinkAccount(id)];
    let tail = account_links(End::Row(id), categories);
    lemma_run_in_turn(store, head, tail, inserted);
    let updated = store.apply(head[0], inserted);
    let cleared = updated.apply(head[1], inserted);
    assert(store.run(head, inserted) == cleared) by {
        lemma_run_two(store, head[0], head[1], inserted);
    }
    lemma_run_account_links(cleared, End::Row(id), categories, inserted);
    let after = store.run(account_update(account), inserted);
    let rows = rows_of_account(id as int, categories);
    assert(after.links == cleared.links + rows);
    assert forall|other: int| true implies #[trigger] categories_of(after.links, other) == if other
        == id as int {
        ints(categories)
    } else {
        categories_of(store.links, other)
    } by {
        lemma_categories_without_account(store.links, id as int, other);
        lemma_categories_of_both(cleared.links, rows, other);
        lemma_categories_of_rows(id as int, categories, other);
        if other != id as int {
            assert(categories_of(cleared.links, other) + Seq::<int>::empty() =~= categories_of(
                cleared.links,
                other,
            ));
        } else {
            assert(Seq::<int>::empty() + ints(categories) =~= ints(categories));
        }
    }
    assert(after.accounts.dom() =~= store.accounts.dom());
}

/// Replacing the links of a category: after the update of a category that
/// has an id, the accounts that the link rows give it are exactly those it
/// carried, whatever it had before, and every other category has the links
/// it had. The row of the category, where there is one, holds what the
/// category carried, with sequence 1 where it was unset.
pub proof fn law_update_category_replaces_links(
    store: Store,
    category: CategoryView,
    inserted: i64,
)
    requires
        category.id is Some,
    ensures
        ({
            let id = category.id->0 as int;
            let after = store.run(category_update(category), inserted);
            &&& accounts_of(after.links, id).to_multiset() == ints(
                category.linked_account_ids(),
            ).to_multiset()
            &&& forall|other: int|
                other != id ==> #[trigger] accounts_of(after.links, other) == accounts_of(
                    store.links,
                    other,
                )
            &&& after.categories.dom() == store.categories.dom()
            &&& store.categories.dom().contains(id) ==> after.categories[id] == category.record()
            &&& forall|other: int|
                other != id && store.categories.dom().contains(other)
                    ==> #[trigger] after.categories[other] == store.categories[other]
            &&& after.accounts == store.accounts
        }),
{
    let id = category.id->0;
    let accounts = category.linked_account_ids();
    let head = seq![OpView::UpdateCategory(id, category.record()), OpView::UnlinkCategory(id)];
    let tail = category_links(End::Row(id), accounts);
    lemma_run_in_turn(store, head, tail, inserted);
    let updated = store.apply(head[0], inserted);
    let cleared = updated.apply(head[1], inserted);
    assert(store.run(head, inserted) == cleared) by {
        lemma_run_two(store, head[0], head[1], inserted);
    }
    lemma_run_category_links(cleared, End::Row(id), accounts, inserted);
    let after = store.run(category_update(category), inserted);
    let rows = rows_of_category(id as int, accounts);
    assert(after.links == cleared.links + rows);
    assert forall|other: int| true implies #[trigger] accounts_of(after.links, other) == if other
        == id as int {
        ints(accounts)
    } else {
        accounts_of(store.links, other)
    } by {
        lemma_accounts_without_category(store.links, id as int, other);
        lemma_accounts_of_both(cleared.links, rows, other);
        lemma_accounts_of_rows(id as int, accounts, other);
        if other != id as int {
            assert(accounts_of(cleared.links, other) + Seq::<int>::empty() =~= accounts_of(
                cleared.links,
                other,
            ));
        } else {
            assert(Seq::<int>::empty() + ints(accounts) =~= ints(accounts));
        }
    }
    assert(after.categories.dom() =~= store.categories.dom());
}

/// Deleting an account takes its links with it: afterwards the account has
/// no row, no link row names it, and no selection lists it. The other
/// accounts and every category keep their rows, the other accounts keep
/// their links, and each category keeps the accounts it had but for this one.
pub proof fn law_delete_account_cascades(store: Store, id: i32, inserted: i64)
    ensures
        ({
            let after = store.run(account_deletion(id), inserted);
            &&& !after.accounts.dom().contains(id as int)
            &&& forall|i: int|
                0 <= i < after.links.len() ==> (#[trigger] after.links[i]).account_id != id
            &&& forall|clauses: Seq<Seq<ConditionView>>|
                !(#[trigger] after.listing(clauses)).contains(id as int)
            &&& after.accounts == store.accounts.remove(id as int)
            &&& after.categories == store.categories
            &&& forall|other: int|
                other != id ==> #[trigger] categories_of(after.links, other) == categories_of(
                    store.links,
                    other,
                )
            &&& forall|category_id: int| #[trigger]
                accounts_of(after.links, category_id) == accounts_of(
                    store.links,
                    category_id,
                ).filter(|account_id: int| account_id != id)
        }),
{
    lemma_run_two(store, OpView::UnlinkAccount(id), OpView::DeleteAccount(id), inserted);
    lemma_without_account_names_none(store.links, id as int);
    let after = store.run(account_deletion(id), inserted);
    assert forall|other: int| other != id implies #[trigger] categories_of(after.links, other)
        == categories_of(store.links, other) by {
        lemma_categories_without_account(store.links, id as int, other);
    }
    assert forall|category_id: int| #[trigger]
        accounts_of(after.links, category_id) == accounts_of(store.links, category_id).filter(
            |account_id: int| account_id != id,
        ) by {
        lemma_accounts_without_account(store.links, id as int, category_id);
    }
}

/// Deleting a category takes its links with it: afterwards the category has
/// no row and no link row names it, so that it is gone from every account.
/// The other categories and every account keep their rows, and each account
/// keeps the links it had to other categories.
pub proof fn law_delete_category_cascades(store: Store, id: i32, inserted: i64)
    ensures
        ({
            let after = store.run(category_deletion(id), inserted);
            &&& !after.categories.dom().contains(id as int)
            &&& forall|i: int|
                0 <= i < after.links.len() ==> (#[trigger] after.links[i]).category_id != id
            &&& after.categories == store.categories.remove(id as int)
            &&& after.accounts == store.accounts
            &&& forall|account_id: int| #[trigger]
                categories_of(after.links, account_id) == categories_of(
                    store.links,
                    account_id,
                ).filter(|category_id: int| category_id != id)
        }),
{
    lemma_run_two(store, OpView::UnlinkCategory(id), OpView::DeleteCategory(id), inserted);
    lemma_without_category_names_none(store.links, id as int);
    let after = store.run(category_deletion(id), inserted);
    assert forall|account_id: int| #[trigger]
        categories_of(after.links, account_id) == categories_of(store.links, account_id).filter(
            |category_id: int| category_id != id,
        ) by {
        lemma_categories_without_category(store.links, id as int, account_id);
    }
}

/// Creating an account stores it whole: the new row holds what the account
/// carried, with sequence 1, not liked and the placeholder note in place of
/// what was unset (the note also where it was empty), and the link rows give
/// the new id the categories it carried, beside what rows of the store
/// already named that id: exactly those it carried where no row did. Nothing
/// else changes.
pub proof fn law_insert_stores_account(store: Store, account: AccountView, inserted: i64)
    ensures
        ({
            let id = inserted as int;
            let after = store.run(account_insertion(account), inserted);
            let row = after.accounts[id];
            &&& after.accounts == store.accounts.insert(id, account.record())
            &&& row.name == account.name && row.username == account.username && row.password
                == account.password
            &&& row.sequence == if account.sequence is Some {
                account.sequence->0
            } else {
                1
            }
            &&& row.liked == if account.liked is Some {
                account.liked->0
            } else {
                false
            }
            &&& row.description == if account.description is Some && account.description->0.len()
                > 0 {
                account.description->0
            } else {
                DEFAULT_DESCRIPTION@
            }
            &&& row.description.len() > 0
            &&& categories_of(after.links, id).to_multiset() == (categories_of(store.links, id)
                + ints(account.category_ids())).to_multiset()
            &&& categories_of(store.links, id).len() == 0 ==> categories_of(
                after.links,
                id,
            ).to_multiset() == ints(account.category_ids()).to_multiset()
            &&& forall|other: int|
                other != id ==> #[trigger] categories_of(after.links, other) == categories_of(
                    store.links,
                    other,
                )
            &&& after.categories == store.categories
        }),
{
    let id = inserted as int;
    let categories = account.category_ids();
    let head = seq![OpView::InsertAccount(account.record())];
    let tail = account_links(End::Inserted, categories);
    lemma_run_in_turn(store, head, tail, inserted);
    let created = store.apply(head[0], inserted);
    lemma_run_one(store, head[0], inserted);
    lemma_run_account_links(created, End::Inserted, categories, inserted);
    let after = store.run(account_insertion(account), inserted);
    let rows = rows_of_account(id, categories);
    assert(after.links == store.links + rows);
    assert forall|other: int| true implies #[trigger] categories_of(after.links, other)
        == categories_of(store.links, other) + if other == id {
        ints(categories)
    } else {
        Seq::<int>::empty()
    } by {
        lemma_categories_of_both(store.links, rows, other);
        lemma_categories_of_rows(id, categories, other);
    }
    assert forall|other: int| other != id implies #[trigger] categories_of(after.links, other)
        == categories_of(store.links, other) by {
        assert(categories_of(store.links, other) + Seq::<int>::empty() =~= categories_of(
            store.links,
            other,
        ));
    }
    lemma_default_description_not_empty();
    if categories_of(store.links, id).len() == 0 {
        assert(categories_of(store.links, id) + ints(categories) =~= ints(categories));
    }
}

/// Creating a category stores it whole: the new row holds its name and its
/// sequence, 1 where that was unset, and the link rows give the new id the
/// accounts it carried, beside what rows of the store already named that id.
/// Nothing else changes.
pub proof fn law_insert_stores_category(store: Store, category: CategoryView, inserted: i64)
    ensures
        ({
            let id = inserted as int;
            let after = store.run(category_insertion(category), inserted);
            let row = after.categories[id];
            &&& after.categories == store.categories.insert(id, category.record())
            &&& row.name == category.name
            &&& row.sequence == if category.sequence is Some {
                category.sequence->0
            } else {
                1
            }
            &&& accounts_of(after.links, id).to_multiset() == (accounts_of(store.links, id) + ints(
                category.linked_account_ids(),
            )).to_multiset()
            &&& forall|other: int|
                other != id ==> #[trigger] accounts_of(after.links, other) == accounts_of(
                    store.links,
                    other,
                )
            &&& after.accounts == store.accounts
        }),
{
    let id = inserted as int;
    let accounts = category.linked_account_ids();
    let head = seq![OpView::InsertCategory(category.record())];
    let tail = category_links(End::Inserted, accounts);
    lemma_run_in_turn(store, head, tail, inserted);
    let created = store.apply(head[0], inserted);
    lemma_run_one(store, head[0], inserted);
    lemma_run_category_links(created, End::Inserted, accounts, inserted);
    let after = store.run(category_insertion(category), inserted);
    let rows = rows_of_category(id, accounts);
    assert(after.links == store.links + rows);
    assert forall|other: int| true implies #[trigger] accounts_of(after.links, other)
        == accounts_of(store.links, other) + if other == id {
        ints(accounts)
    } else {
        Seq::<int>::empty()
    } by {
        lemma_accounts_of_both(store.links, rows, other);
        lemma_accounts_of_rows(id, accounts, other);
    }
    assert forall|other: int| other != id implies #[trigger] accounts_of(after.links, other)
        == accounts_of(store.links, other) by {
        assert(accounts_of(store.links, other) + Seq::<int>::empty() =~= accounts_of(
            store.links,
            other,
        ));
    }
}

/// An update without an id is a creation: the same operations, and so the
/// same store afterwards, whatever the store assigns.
pub proof fn law_update_without_id_creates(store: Store, account: AccountView, inserted: i64)
    requires
        account.id is None,
    ensures
        account_update(account) == account_insertion(account),
        store.run(account_update(account), inserted) == store.run(
            account_insertion(account),
            inserted,
        ),
{
}

/// An update of a category without an id is a creation.
pub proof fn law_update_category_without_id_creates(
    store: Store,
    category: CategoryView,
    inserted: i64,
)
    requires
        category.id is None,
    ensures
        category_update(category) == category_insertion(category),
        store.run(category_update(category), inserted) == store.run(
            category_insertion(category),
            inserted,
        ),
{
}

/// The store after one operation.
pub proof fn lemma_run_one(store: Store, op: OpView, inserted: i64)
    ensures
        store.run(seq![op], inserted) == store.apply(op, inserted),
{
    assert(seq![op].drop_last() =~= Seq::<OpView>::empty());
    assert(store.run(Seq::<OpView>::empty(), inserted) == store);
}

/// The store after two operations.
pub proof fn lemma_run_two(store: Store, first: OpView, second: OpView, inserted: i64)
    ensures
        store.run(seq![first, second], inserted) == store.apply(first, inserted).apply(
            second,
            inserted,
        ),
{
    assert(seq![first, second].drop_last() =~= seq![first]);
    lemma_run_one(store, first, inserted);
}

/// A filter made of two admits what both of them admit.
pub proof fn lemma_admits_both(
    store: Store,
    id: int,
    first: Seq<Seq<ConditionView>>,
    second: Seq<Seq<ConditionView>>,
)
    ensures
        store.admits(id, first + second) <==> store.admits(id, first) && store.admits(id, second),
{
    let both = first + second;
    if store.admits(id, both) {
        assert forall|j: int| 0 <= j < first.len() implies store.meets(id, #[trigger] first[j]) by {
            assert(both[j] == first[j]);
        }
        assert forall|j: int| 0 <= j < second.len() implies store.meets(
            id,
            #[trigger] second[j],
        ) by {
            assert(both[first.len() + j] == second[j]);
        }
    }
    if store.admits(id, first) && store.admits(id, second) {
        assert forall|j: int| 0 <= j < both.len() implies store.meets(id, #[trigger] both[j]) by {
            if j < first.len() {
                assert(both[j] == first[j]);
            } else {
                assert(both[j] == second[j - first.len()]);
            }
        }
    }
}

/// A filter of one clause admits what meets the clause.
pub proof fn lemma_admits_one(store: Store, id: int, clause: Seq<ConditionView>)
    ensures
        store.admits(id, seq![clause]) <==> store.meets(id, clause),
{
    assert(seq![clause][0] == clause);
}

/// What a search by example admits. Where the name and the username of the
/// example are both in use, an account qualifies by either: its name holds
/// the one or its username holds the other. Where one of them is in use, it
/// alone decides. The liked flag, where it is asked for, and the category,
/// where one is given, must match as well.
pub proof fn law_search_admits(
    store: Store,
    id: int,
    example: AccountView,
    with_liked: bool,
    category_id: i32,
)
    ensures
        store.admits(id, search_clauses(example, with_liked, category_id)) <==> {
            &&& example.name.len() > 0 && example.username.len() > 0 ==> contains_text(
                store.accounts[id].name,
                example.name,
            ) || contains_text(store.accounts[id].username, example.username)
            &&& example.name.len() > 0 && example.username.len() == 0 ==> contains_text(
                store.accounts[id].name,
                example.name,
            )
            &&& example.name.len() == 0 && example.username.len() > 0 ==> contains_text(
                store.accounts[id].username,
                example.username,
            )
            &&& with_liked ==> store.accounts[id].liked == example.liked_or_default()
            &&& category_id > 0 ==> store.linked(id, category_id as int)
        },
{
    let texts = text_alternatives(example.name, example.username);
    let by_text = if texts.len() > 0 {
        seq![texts]
    } else {
        Seq::<Seq<ConditionView>>::empty()
    };
    let liked = seq![ConditionView::LikedIs(example.liked_or_default())];
    let by_liked = if with_liked {
        seq![liked]
    } else {
        Seq::<Seq<ConditionView>>::empty()
    };
    let linked = seq![ConditionView::InCategory(category_id)];
    let by_category = if category_id > 0 {
        seq![linked]
    } else {
        Seq::<Seq<ConditionView>>::empty()
    };
    lemma_admits_both(store, id, by_text + by_liked, by_category);
    lemma_admits_both(store, id, by_text, by_liked);
    lemma_admits_one(store, id, texts);
    lemma_admits_one(store, id, liked);
    lemma_admits_one(store, id, linked);
    let name = ConditionView::NameContains(example.name);
    let username = ConditionView::UsernameContains(example.username);
    if example.name.len() > 0 && example.username.len() > 0 {
        assert(texts =~= seq![name, username]);
        assert(texts[0] == name && texts[1] == username);
    } else if example.name.len() > 0 {
        assert(texts =~= seq![name]);
        assert(texts[0] == name);
    } else if example.username.len() > 0 {
        assert(texts =~= seq![username]);
        assert(texts[0] == username);
    }
    assert(liked[0] == ConditionView::LikedIs(example.liked_or_default()));
    assert(linked[0] == ConditionView::InCategory(category_id));
}

/// The kind of a condition: what it compares, without the value it compares
/// with.
pub enum Kind {
    Name,
    Username,
    Liked,
    Category,
}

pub open spec fn kind(condition: ConditionView) -> Kind {
    match condition {
        ConditionView::NameContains(_) => Kind::Name,
        ConditionView::UsernameContains(_) => Kind::Username,
        ConditionView::LikedIs(_) => Kind::Liked,
        ConditionView::InCategory(_) => Kind::Category,
    }
}

/// Whether two clauses state conditions of the same kinds in the same order.
pub open spec fn same_kinds(first: Seq<ConditionView>, second: Seq<ConditionView>) -> bool {
    &&& first.len() == second.len()
    &&& forall|k: int| 0 <= k < first.len() ==> kind(#[trigger] first[k]) == kind(second[k])
}

/// Whether two filters have clauses of the same kinds in the same order.
pub open spec fn same_shape(
    first: Seq<Seq<ConditionView>>,
    second: Seq<Seq<ConditionView>>,
) -> bool {
    &&& first.len() == second.len()
    &&& forall|j: int| 0 <= j < first.len() ==> same_kinds(#[trigger] first[j], second[j])
}

pub proof fn lemma_alternatives_text_by_kind(first: Seq<ConditionView>, second: Seq<ConditionView>)
    requires
        same_kinds(first, second),
    ensures
        alternatives_text(first) == alternatives_text(second),
    decreases first.len(),
{
    if first.len() == 1 {
        assert(kind(first[0]) == kind(second[0]));
    } else if first.len() > 1 {
        assert(kind(first.last()) == kind(second.last()));
        assert(same_kinds(first.drop_last(), second.drop_last())) by {
            assert forall|k: int| 0 <= k < first.len() - 1 implies kind(
                #[trigger] first.drop_last()[k],
            ) == kind(second.drop_last()[k]) by {
                assert(kind(first[k]) == kind(second[k]));
            }
        }
        lemma_alternatives_text_by_kind(first.drop_last(), second.drop_last());
    }
}

/// The text of a selection is fixed by the kinds of the conditions of its
/// filter. The values that the conditions compare with have no part in it:
/// whatever characters they hold, they reach the store as bound values only.
pub proof fn law_text_ignores_values(
    first: Seq<Seq<ConditionView>>,
    second: Seq<Seq<ConditionView>>,
)
    requires
        same_shape(first, second),
    ensures
        clauses_text(first) == clauses_text(second),
        selection(first).sql == selection(second).sql,
    decreases first.len(),
{
    if first.len() > 0 {
        assert(same_kinds(first.last(), second.last()));
        lemma_alternatives_text_by_kind(first.last(), second.last());
        assert(same_shape(first.drop_last(), second.drop_last())) by {
            assert forall|j: int| 0 <= j < first.len() - 1 implies same_kinds(
                #[trigger] first.drop_last()[j],
                second.drop_last()[j],
            ) by {
                assert(same_kinds(first[j], second[j]));
            }
        }
        law_text_ignores_values(first.drop_last(), second.drop_last());
    }
}

/// Two searches by example that use the same criteria ask the store in the
/// same words, whatever the name and the username they look for hold, a
/// quote or any other character that the store gives a meaning to.
pub proof fn law_search_text_ignores_values(
    first: AccountView,
    second: AccountView,
    with_liked: bool,
    first_category: i32,
    second_category: i32,
)
    requires
        first.name.len() > 0 <==> second.name.len() > 0,
        first.username.len() > 0 <==> second.username.len() > 0,
        first_category > 0 <==> second_category > 0,
    ensures
        selection(search_clauses(first, with_liked, first_category)).sql == selection(
            search_clauses(second, with_liked, second_category),
        ).sql,
{
    let a = search_clauses(first, with_liked, first_category);
    let b = search_clauses(second, with_liked, second_category);
    assert(same_shape(a, b)) by {
        assert(a.len() == b.len());
        assert forall|j: int| 0 <= j < a.len() implies same_kinds(#[trigger] a[j], b[j]) by {
            assert forall|k: int| 0 <= k < a[j].len() implies kind(#[trigger] a[j][k]) == kind(
                b[j][k],
            ) by {}
        }
    }
    law_text_ignores_values(a, b);
}

/// Whether a plan inserts a parent row, if at all, in its first operation.
pub open spec fn inserts_first(plan: Seq<OpView>) -> bool {
    forall|at: int| 0 < at < plan.len() ==> !(#[trigger] plan[at]).inserts_parent()
}

/// Every unit of work that this library plans inserts a parent row, if at
/// all, in its first operation.
pub proof fn law_plans_insert_first(account: AccountView, category: CategoryView, id: i32, liked: bool)
    ensures
        inserts_first(account_insertion(account)),
        inserts_first(account_update(account)),
        inserts_first(account_deletion(id)),
        inserts_first(seq![OpView::SetLiked(id, liked)]),
        inserts_first(category_insertion(category)),
        inserts_first(category_update(category)),
        inserts_first(category_deletion(id)),
{
}

/// What holds between a unit of work under way and the store, while the
/// store held `store` when the unit of work began.
pub open spec fn on_course(work: WorkView, session: Session, store: Store) -> bool {
    match work.stage {
        Stage::Beginning => session == Session::at_rest(store),
        Stage::Running(at) => {
            &&& at < work.plan.len()
            &&& session.committed == store
            &&& session.pending == Some(store.run(work.plan.take(at as int), work.inserted))
        },
        Stage::Committing => {
            &&& session.committed == store
            &&& session.pending == Some(store.run(work.plan, work.inserted))
        },
        Stage::RollingBack => session.committed == store,
        Stage::Finished(done) => session == Session::at_rest(
            if done {
                store.run(work.plan, work.inserted)
            } else {
                store
            },
        ),
    }
}

/// One answer of the store keeps a unit of work on course.
pub proof fn lemma_stays_on_course(work: WorkView, session: Session, store: Store, reply: Reply)
    requires
        work.plan.len() <= usize::MAX,
        inserts_first(work.plan),
        on_course(work, session, store),
    ensures
        on_course(work.next(reply), work.effect(session, reply), store),
        work.next(reply).plan == work.plan,
{
    let next = work.next(reply);
    match (work.stage, reply) {
        (Stage::Beginning, Reply::Done(_)) => {
            assert(work.plan.take(0) =~= Seq::<OpView>::empty());
            assert(work.plan.len() == 0 ==> work.plan =~= Seq::<OpView>::empty());
        },
        (Stage::Running(at), Reply::Done(rowid)) => {
            let done = work.plan.take(at as int);
            let more = work.plan.take(at + 1);
            assert(more.drop_last() =~= done);
            assert(more.last() == work.plan[at as int]);
            if at == 0 {
                assert(done =~= Seq::<OpView>::empty());
                assert(store.run(done, work.inserted) == store.run(done, next.inserted));
            } else {
                assert(!work.plan[at as int].inserts_parent());
            }
            assert(store.run(more, next.inserted) == store.run(done, next.inserted).apply(
                work.plan[at as int],
                next.inserted,
            ));
            if at + 1 >= work.plan.len() {
                assert(more =~= work.plan);
            }
        },
        _ => {},
    }
}

/// A unit of work takes effect as a whole or not at all. Whatever the store
/// answers, and however many answers have come: as long as the unit of work
/// has not ended well, the store holds, committed, what it held when the
/// unit of work began; once it has ended well, the store holds what all
/// operations of the plan, in their order, make of that; and once it has
/// ended either way, no transaction is left open. The result that is
/// reported is `Ok` in the one case and the failure of a statement in the
/// other.
pub proof fn law_unit_of_work_is_atomic(plan: Seq<OpView>, store: Store, replies: Seq<Reply>)
    requires
        plan.len() <= usize::MAX,
        inserts_first(plan),
    ensures
        ({
            let (work, session) = WorkView::begin(plan).drive(Session::at_rest(store), replies);
            &&& work.plan == plan
            &&& on_course(work, session, store)
            &&& work.stage == Stage::Finished(true) ==> session == Session::at_rest(
                store.run(plan, work.inserted),
            ) && work.command() == CommandView::Finish(Ok(()))
            &&& work.stage == Stage::Finished(false) ==> session == Session::at_rest(store)
                && work.command() == CommandView::Finish(Err(StorageError::Statement))
            &&& work.stage != Stage::Finished(true) ==> session.committed == store
        }),
    decreases replies.len(),
{
    if replies.len() > 0 {
        law_unit_of_work_is_atomic(plan, store, replies.drop_last());
        let (work, session) = WorkView::begin(plan).drive(
            Session::at_rest(store),
            replies.drop_last(),
        );
        lemma_stays_on_course(work, session, store, replies.last());
    }
}

/// A unit of work ends after at most as many answers as its plan has
/// operations and three more, and then stays as it is.
pub proof fn law_unit_of_work_ends(plan: Seq<OpView>, store: Store, replies: Seq<Reply>)
    requires
        plan.len() <= usize::MAX,
        replies.len() >= plan.len() + 3,
    ensures
        WorkView::begin(plan).drive(Session::at_rest(store), replies).0.stage is Finished,
{
    lemma_progress(plan, store, replies);
}

/// How far a unit of work is from its end, in answers.
pub open spec fn answers_left(work: WorkView) -> int {
    match work.stage {
        Stage::Beginning => work.plan.len() as int + 3,
        Stage::Running(at) => work.plan.len() as int - at as int + 2,
        Stage::Committing => 2,
        Stage::RollingBack => 1,
        Stage::Finished(_) => 0,
    }
}

pub proof fn lemma_progress(plan: Seq<OpView>, store: Store, replies: Seq<Reply>)
    requires
        plan.len() <= usize::MAX,
    ensures
        ({
            let work = WorkView::begin(plan).drive(Session::at_rest(store), replies).0;
            &&& work.plan == plan
            &&& work.stage matches Stage::Running(at) ==> at < plan.len()
            &&& answers_left(work) <= if replies.len() >= plan.len() + 3 {
                0
            } else {
                plan.len() + 3 - replies.len()
            }
        }),
    decreases replies.len(),
{
    if replies.len() > 0 {
        lemma_progress(plan, store, replies.drop_last());
    }
}

} // verus!
