//! Statements for the database engine: their text and the values bound to their parameters.

use vstd::prelude::*;

verus! {

/// A value bound to a parameter of a statement.
#[derive(Debug, Clone)]
pub enum Param {
    Integer(i64),
    Text(String),
    Blob(Vec<u8>),
}

/// A bound value as a mathematical value.
pub enum ParamView {
    Integer(i64),
    Text(Seq<char>),
    Blob(Seq<u8>),
}

impl View for Param {
    type V = ParamView;

    open spec fn view(&self) -> ParamView {
        match self {
            Param::Integer(n) => ParamView::Integer(*n),
            Param::Text(s) => ParamView::Text(s@),
            Param::Blob(b) => ParamView::Blob(b@),
        }
    }
}

/// The values that a list of parameters stands for.
pub open spec fn param_views(params: Seq<Param>) -> Seq<ParamView> {
    params.map_values(|p: Param| p@)
}

/// A statement or a query: its text, and what its parameters `?1`, `?2` and so on are bound to.
#[derive(Debug, Clone)]
pub struct Statement {
    pub sql: String,
    pub params: Vec<Param>,
}

/// A statement as a mathematical value.
pub struct StatementView {
    pub sql: Seq<char>,
    pub params: Seq<ParamView>,
}

impl View for Statement {
    type V = StatementView;

    open spec fn view(&self) -> StatementView {
        StatementView { sql: self.sql@, params: param_views(self.params@) }
    }
}

/// The statements that a list stands for.
pub open spec fn statement_views(s: Seq<Statement>) -> Seq<StatementView> {
    s.map_values(|x: Statement| x@)
}

/// A statement as a mathematical value, by its parts.
pub open spec fn stmt(sql: Seq<char>, params: Seq<ParamView>) -> StatementView {
    StatementView { sql, params }
}

/// A statement without parameters.
pub fn plain(sql: &str) -> (res: Statement)
    ensures
        res@ == stmt(sql@, Seq::empty()),
{
    let res = Statement { sql: sql.to_owned(), params: Vec::new() };
    assert(param_views(res.params@) =~= Seq::<ParamView>::empty());
    res
}

/// A statement with parameters.
pub fn bound(sql: &str, params: Vec<Param>) -> (res: Statement)
    ensures
        res@ == stmt(sql@, param_views(params@)),
{
    Statement { sql: sql.to_owned(), params }
}

/// The number of rows that a counting query reported: none where it returned nothing, or
/// something other than a number.
pub fn counted(cell: Option<i64>) -> (res: u64)
    ensures
        res == (match cell {
            Some(n) => n as u64,
            None => 0,
        }),
{
    match cell {
        Some(n) => n as u64,
        None => 0,
    }
}

} // verus!
