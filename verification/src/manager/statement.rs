//! Queries with their parameters, ready to be run.

use vstd::prelude::*;

use crate::text::{trim, trimmed};

verus! {

/// A parameter of a query; `None` stands for a missing value.
#[derive(Debug)]
pub enum Bind {
    Int(Option<i64>),
    Text(Option<String>),
}

/// A parameter as a mathematical value.
pub enum BindView {
    Int(Option<int>),
    Text(Option<Seq<char>>),
}

impl View for Bind {
    type V = BindView;

    open spec fn view(&self) -> BindView {
        match self {
            Bind::Int(None) => BindView::Int(None),
            Bind::Int(Some(n)) => BindView::Int(Some(*n as int)),
            Bind::Text(None) => BindView::Text(None),
            Bind::Text(Some(s)) => BindView::Text(Some(s@)),
        }
    }
}

/// An integer parameter.
pub open spec fn int_value(n: int) -> BindView {
    BindView::Int(Some(n))
}

/// A text parameter.
pub open spec fn text_value(s: Seq<char>) -> BindView {
    BindView::Text(Some(s))
}

/// A query: its text and its parameters in order. Where `compare_from` is set, the
/// comparison signs of the request at hand still go into the text, and the parameter
/// of that number is the first that they compare with.
#[derive(Debug)]
pub struct Statement {
    pub sql: String,
    pub compare_from: Option<u32>,
    pub binds: Vec<Bind>,
}

/// A query as a mathematical value.
#[verifier::ext_equal]
pub struct StatementView {
    pub sql: Seq<char>,
    pub compare_from: Option<u32>,
    pub binds: Seq<BindView>,
}

/// Parameters as mathematical values.
pub open spec fn binds_of(binds: Seq<Bind>) -> Seq<BindView> {
    binds.map_values(|b: Bind| b@)
}

impl View for Statement {
    type V = StatementView;

    open spec fn view(&self) -> StatementView {
        StatementView {
            sql: self.sql@,
            compare_from: self.compare_from,
            binds: binds_of(self.binds@),
        }
    }
}

/// A text parameter.
pub(crate) fn text_bind(s: &str) -> (r: Bind)
    ensures
        r@ == text_value(s@),
{
    Bind::Text(Some(s.to_owned()))
}

/// A text parameter without the white space around it.
pub(crate) fn trimmed_bind(s: &str) -> (r: Bind)
    ensures
        r@ == text_value(trimmed(s@)),
{
    Bind::Text(Some(trim(s)))
}

/// An integer parameter.
pub(crate) fn int_bind(n: i64) -> (r: Bind)
    ensures
        r@ == int_value(n as int),
{
    Bind::Int(Some(n))
}

/// The mathematical value of an optional text.
pub open spec fn optional_text(s: Option<String>) -> Option<Seq<char>> {
    match s {
        None => None,
        Some(t) => Some(t@),
    }
}

/// A text parameter that may be missing.
pub(crate) fn optional_bind(s: &Option<String>) -> (r: Bind)
    ensures
        r@ == BindView::Text(optional_text(*s)),
{
    match s {
        None => Bind::Text(None),
        Some(t) => Bind::Text(Some(t.clone())),
    }
}

} // verus!
