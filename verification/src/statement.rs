//! Statements as data: the text that the store is asked to run and the
//! values bound to its placeholders, in order.

use vstd::prelude::*;

verus! {

/// The views of a sequence of values, one for one.
pub open spec fn views<T: View>(items: Seq<T>) -> Seq<T::V> {
    items.map_values(|item: T| item@)
}

/// A value bound to one placeholder of a statement. No text of a caller ever
/// becomes part of a statement in another way.
#[derive(Debug, Clone, PartialEq, Eq)]
pub enum Param {
    Integer(i64),
    Flag(bool),
    Text(String),
}

#[verifier::ext_equal]
pub enum ParamView {
    Integer(i64),
    Flag(bool),
    Text(Seq<char>),
}

impl View for Param {
    type V = ParamView;

    open spec fn view(&self) -> ParamView {
        match self {
            Param::Integer(i) => ParamView::Integer(*i),
            Param::Flag(b) => ParamView::Flag(*b),
            Param::Text(t) => ParamView::Text(t@),
        }
    }
}

/// One statement: its text, with a `?` for each bound value, and the values.
#[derive(Debug, Clone, PartialEq, Eq)]
pub struct Statement {
    pub sql: String,
    pub params: Vec<Param>,
}

#[verifier::ext_equal]
pub struct StatementView {
    pub sql: Seq<char>,
    pub params: Seq<ParamView>,
}

impl View for Statement {
    type V = StatementView;

    open spec fn view(&self) -> StatementView {
        StatementView { sql: self.sql@, params: views(self.params@) }
    }
}

impl Statement {
    /// The statement with the given text and nothing bound.
    pub fn plain(sql: &str) -> (statement: Statement)
        ensures
            statement@ == (StatementView { sql: sql@, params: Seq::empty() }),
    {
        Statement { sql: String::from_str(sql), params: Vec::new() }
    }

    /// The statement with the given text and bound values.
    pub fn bound(sql: &str, params: Vec<Param>) -> (statement: Statement)
        ensures
            statement@ == (StatementView { sql: sql@, params: views(params@) }),
    {
        Statement { sql: String::from_str(sql), params }
    }
}

} // verus!
