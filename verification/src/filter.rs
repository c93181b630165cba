//! Search filters: a conjunction of clauses, each a disjunction of simple
//! conditions on one account, and the text and bound values that ask the
//! store for the accounts it admits.

use vstd::prelude::*;
use crate::entity::{Account, AccountView};
use crate::statement::{views, Param, ParamView, Statement, StatementView};

verus! {

/// The accounts, each with its category ids joined by commas in one column.
pub const SELECT_ACCOUNTS: &'static str =
    "SELECT a.id, a.name, a.username, a.password, a.sequence, a.liked, a.description, a.last_update_time, ac.account_category_ids FROM account a LEFT JOIN (SELECT account_id, GROUP_CONCAT(category_id) AS account_category_ids FROM account_category GROUP BY account_id) AS ac ON a.id = ac.account_id WHERE 1 = 1";

pub const NAME_CONTAINS: &'static str = "instr(a.name, ?) > 0";

pub const USERNAME_CONTAINS: &'static str = "instr(a.username, ?) > 0";

pub const LIKED_IS: &'static str = "a.liked = ?";

pub const IN_CATEGORY: &'static str =
    "a.id IN (SELECT account_id FROM account_category WHERE category_id = ?)";

/// What a clause without a condition asks: nothing satisfies it.
pub const NEVER: &'static str = "0";

pub const OR: &'static str = " OR ";

pub const AND_OPEN: &'static str = " AND ( ";

pub const CLOSE: &'static str = " )";

/// A condition on one account.
#[derive(Debug, Clone, PartialEq, Eq)]
pub enum Condition {
    /// The name holds this text, letter for letter.
    NameContains(String),
    /// The username holds this text, letter for letter.
    UsernameContains(String),
    /// The liked flag has this value.
    LikedIs(bool),
    /// The account is linked to this category.
    InCategory(i32),
}

#[verifier::ext_equal]
pub enum ConditionView {
    NameContains(Seq<char>),
    UsernameContains(Seq<char>),
    LikedIs(bool),
    InCategory(i32),
}

impl View for Condition {
    type V = ConditionView;

    open spec fn view(&self) -> ConditionView {
        match self {
            Condition::NameContains(t) => ConditionView::NameContains(t@),
            Condition::UsernameContains(t) => ConditionView::UsernameContains(t@),
            Condition::LikedIs(b) => ConditionView::LikedIs(*b),
            Condition::InCategory(id) => ConditionView::InCategory(*id),
        }
    }
}

impl ConditionView {
    /// The text that states this condition. It depends on the kind of the
    /// condition alone: the value it compares with is bound, never written out.
    pub open spec fn text(self) -> Seq<char> {
        match self {
            ConditionView::NameContains(_) => NAME_CONTAINS@,
            ConditionView::UsernameContains(_) => USERNAME_CONTAINS@,
            ConditionView::LikedIs(_) => LIKED_IS@,
            ConditionView::InCategory(_) => IN_CATEGORY@,
        }
    }

    /// The value bound to the placeholder of this condition.
    pub open spec fn param(self) -> ParamView {
        match self {
            ConditionView::NameContains(t) => ParamView::Text(t),
            ConditionView::UsernameContains(t) => ParamView::Text(t),
            ConditionView::LikedIs(b) => ParamView::Flag(b),
            ConditionView::InCategory(id) => ParamView::Integer(id as i64),
        }
    }
}

impl Condition {
    /// The text that states this condition, with a placeholder for its value.
    pub fn text(&self) -> (text: &'static str)
        ensures
            text@ == self@.text(),
    {
        match self {
            Condition::NameContains(_) => NAME_CONTAINS,
            Condition::UsernameContains(_) => USERNAME_CONTAINS,
            Condition::LikedIs(_) => LIKED_IS,
            Condition::InCategory(_) => IN_CATEGORY,
        }
    }

    /// The value bound to the placeholder of this condition.
    pub fn param(&self) -> (param: Param)
        ensures
            param@ == self@.param(),
    {
        match self {
            Condition::NameContains(t) => Param::Text(t.clone()),
            Condition::UsernameContains(t) => Param::Text(t.clone()),
            Condition::LikedIs(b) => Param::Flag(*b),
            Condition::InCategory(id) => Param::Integer(*id as i64),
        }
    }
}

/// The text of a disjunction: its conditions joined by `OR`, and `0` where
/// there is none.
pub open spec fn alternatives_text(alternatives: Seq<ConditionView>) -> Seq<char>
    decreases alternatives.len(),
{
    if alternatives.len() == 0 {
        NEVER@
    } else if alternatives.len() == 1 {
        alternatives[0].text()
    } else {
        alternatives_text(alternatives.drop_last()) + OR@ + alternatives.last().text()
    }
}

/// The values that a disjunction binds, in the order of its conditions.
pub open spec fn alternatives_params(alternatives: Seq<ConditionView>) -> Seq<ParamView> {
    alternatives.map_values(|c: ConditionView| c.param())
}

/// The text that a filter adds to a selection: each clause in brackets
/// behind an `AND`.
pub open spec fn clauses_text(clauses: Seq<Seq<ConditionView>>) -> Seq<char>
    decreases clauses.len(),
{
    if clauses.len() == 0 {
        Seq::empty()
    } else {
        clauses_text(clauses.drop_last()) + AND_OPEN@ + alternatives_text(clauses.last())
            + CLOSE@
    }
}

/// The values that a filter binds, clause by clause.
pub open spec fn clauses_params(clauses: Seq<Seq<ConditionView>>) -> Seq<ParamView>
    decreases clauses.len(),
{
    if clauses.len() == 0 {
        Seq::empty()
    } else {
        clauses_params(clauses.drop_last()) + alternatives_params(clauses.last())
    }
}

/// The selection of the accounts that a filter admits.
pub open spec fn selection(clauses: Seq<Seq<ConditionView>>) -> StatementView {
    StatementView { sql: SELECT_ACCOUNTS@ + clauses_text(clauses), params: clauses_params(clauses) }
}

/// A filter on accounts: every clause must hold, and a clause holds when one
/// of its conditions does.
#[derive(Debug, Clone, PartialEq, Eq)]
pub struct Filter {
    pub clauses: Vec<Vec<Condition>>,
}

impl View for Filter {
    type V = Seq<Seq<ConditionView>>;

    open spec fn view(&self) -> Seq<Seq<ConditionView>> {
        self.clauses@.map_values(|clause: Vec<Condition>| views(clause@))
    }
}

fn write_alternatives(alternatives: &Vec<Condition>, sql: &mut String, params: &mut Vec<Param>)
    ensures
        final(sql)@ == old(sql)@ + alternatives_text(views(alternatives@)),
        views(final(params)@) == views(old(params)@) + alternatives_params(
            views(alternatives@),
        ),
{
    let ghost all = views(alternatives@);
    if alternatives.len() == 0 {
        sql.append(NEVER);
        assert(views(params@) =~= views(old(params)@) + alternatives_params(all));
        return ;
    }
    sql.append(alternatives[0].text());
    params.push(alternatives[0].param());
    assert(alternatives_text(all.take(1)) == all[0].text());
    assert(views(params@) =~= views(old(params)@) + alternatives_params(all.take(1)));
    let mut j: usize = 1;
    while j < alternatives.len()
        invariant
            1 <= j <= alternatives.len(),
            all == views(alternatives@),
            sql@ == old(sql)@ + alternatives_text(all.take(j as int)),
            views(params@) == views(old(params)@) + alternatives_params(all.take(j as int)),
        decreases alternatives.len() - j,
    {
        let ghost text_before = sql@;
        let ghost params_before = params@;
        sql.append(OR);
        sql.append(alternatives[j].text());
        params.push(alternatives[j].param());
        j = j + 1;
        proof {
            let now = all.take(j as int);
            assert(now.drop_last() =~= all.take(j - 1));
            assert(now.last() == all[j - 1]);
            assert(sql@ =~= old(sql)@ + alternatives_text(now));
            assert(views(params@) =~= views(params_before).push(all[j - 1].param()));
            assert(views(params@) =~= views(old(params)@) + alternatives_params(now));
        }
    }
    assert(all.take(alternatives.len() as int) == all);
}

/// The conditions on the texts of an account that a search by `name` and
/// `username` states: one for each of the two that is not empty.
pub open spec fn text_alternatives(name: Seq<char>, username: Seq<char>) -> Seq<ConditionView> {
    (if name.len() > 0 {
        seq![ConditionView::NameContains(name)]
    } else {
        Seq::empty()
    }) + (if username.len() > 0 {
        seq![ConditionView::UsernameContains(username)]
    } else {
        Seq::empty()
    })
}

/// The filter of a search by example. The name and the username of `account`,
/// where they are not empty, make one clause: either may match. `with_liked`
/// adds a clause on the liked flag of `account` (`false` where it is unset),
/// and a positive `category_id` one on the links of the account.
pub open spec fn search_clauses(account: AccountView, with_liked: bool, category_id: i32) -> Seq<
    Seq<ConditionView>,
> {
    let texts = text_alternatives(account.name, account.username);
    (if texts.len() > 0 {
        seq![texts]
    } else {
        Seq::empty()
    }) + (if with_liked {
        seq![seq![ConditionView::LikedIs(account.liked_or_default())]]
    } else {
        Seq::empty()
    }) + (if category_id > 0 {
        seq![seq![ConditionView::InCategory(category_id)]]
    } else {
        Seq::empty()
    })
}

impl Filter {
    /// The filter that admits every account.
    pub fn all() -> (filter: Filter)
        ensures
            filter@ == Seq::<Seq<ConditionView>>::empty(),
    {
        Filter { clauses: Vec::new() }
    }

    /// The filter of a search by example: see [`search_clauses`].
    pub fn search(account: &Account, with_liked: bool, category_id: i32) -> (filter: Filter)
        ensures
            filter@ == search_clauses(account@, with_liked, category_id),
    {
        let mut clauses: Vec<Vec<Condition>> = Vec::new();
        let mut texts: Vec<Condition> = Vec::new();
        if !account.name.as_str().is_empty() {
            texts.push(Condition::NameContains(account.name.clone()));
        }
        if !account.username.as_str().is_empty() {
            texts.push(Condition::UsernameContains(account.username.clone()));
        }
        assert(views(texts@) =~= text_alternatives(account@.name, account@.username));
        if texts.len() > 0 {
            clauses.push(texts);
        }
        if with_liked {
            let mut liked: Vec<Condition> = Vec::new();
            liked.push(Condition::LikedIs(account.liked_or_default()));
            assert(views(liked@) =~= seq![ConditionView::LikedIs(account@.liked_or_default())]);
            clauses.push(liked);
        }
        if category_id > 0 {
            let mut linked: Vec<Condition> = Vec::new();
            linked.push(Condition::InCategory(category_id));
            assert(views(linked@) =~= seq![ConditionView::InCategory(category_id)]);
            clauses.push(linked);
        }
        let filter = Filter { clauses };
        assert(filter@ =~= search_clauses(account@, with_liked, category_id));
        filter
    }

    /// The selection of the accounts that this filter admits: the text names
    /// each condition by its kind, and the values they compare with are bound
    /// in the order of the conditions.
    pub fn statement(&self) -> (statement: Statement)
        ensures
            statement@ == selection(self@),
    {
        let mut sql = String::from_str(SELECT_ACCOUNTS);
        let mut params: Vec<Param> = Vec::new();
        let mut i: usize = 0;
        assert(views(params@) =~= clauses_params(self@.take(0)));
        assert(sql@ =~= SELECT_ACCOUNTS@ + clauses_text(self@.take(0)));
        while i < self.clauses.len()
            invariant
                i <= self.clauses.len(),
                sql@ == SELECT_ACCOUNTS@ + clauses_text(self@.take(i as int)),
                views(params@) == clauses_params(self@.take(i as int)),
            decreases self.clauses.len() - i,
        {
            sql.append(AND_OPEN);
            write_alternatives(&self.clauses[i], &mut sql, &mut params);
            sql.append(CLOSE);
            i = i + 1;
            proof {
                let now = self@.take(i as int);
                assert(now.drop_last() =~= self@.take(i - 1));
                assert(now.last() == views(self.clauses@[i - 1]@));
                assert(sql@ =~= SELECT_ACCOUNTS@ + clauses_text(now));
            }
        }
        assert(self@.take(self.clauses.len() as int) == self@);
        Statement { sql, params }
    }
}

} // verus!
