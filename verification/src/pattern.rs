//! Patterns that bind the output of an expression to variables.

use vstd::prelude::*;
use crate::ast::Identifier;

verus! {

/// A pattern that the output of an expression is assigned to.
#[derive(Debug, PartialEq, Eq, Hash)]
pub enum Pattern {
    /// Bind the value to a variable.
    Identifier(Identifier),
    /// Do not bind the value.
    Ignore,
    /// Split a tuple into its elements.
    Tuple(Vec<Pattern>),
    /// Split an array into its elements.
    Array(Vec<Pattern>),
}

/// A pattern as the mathematical value that it stands for.
pub enum PatternView {
    Identifier(Seq<char>),
    Ignore,
    Tuple(Seq<PatternView>),
    Array(Seq<PatternView>),
}

/// The value that the pattern `p` stands for.
pub open spec fn pattern_view(p: Pattern) -> PatternView
    decreases p,
{
    match p {
        Pattern::Identifier(i) => PatternView::Identifier(i@),
        Pattern::Ignore => PatternView::Ignore,
        Pattern::Tuple(v) => PatternView::Tuple(patterns_view(v@)),
        Pattern::Array(v) => PatternView::Array(patterns_view(v@)),
    }
}

/// The values that the patterns `s` stand for, in order.
pub open spec fn patterns_view(s: Seq<Pattern>) -> Seq<PatternView>
    decreases s,
{
    if s.len() == 0 {
        Seq::empty()
    } else {
        patterns_view(s.drop_last()).push(pattern_view(s.last()))
    }
}

impl View for Pattern {
    type V = PatternView;

    open spec fn view(&self) -> PatternView {
        pattern_view(*self)
    }
}

impl Pattern {
    /// A tuple pattern of the given elements.
    pub fn tuple(elements: Vec<Pattern>) -> (res: Self)
        ensures
            res@ == PatternView::Tuple(patterns_view(elements@)),
    {
        Pattern::Tuple(elements)
    }

    /// An array pattern of the given elements.
    pub fn array(elements: Vec<Pattern>) -> (res: Self)
        ensures
            res@ == PatternView::Array(patterns_view(elements@)),
    {
        Pattern::Array(elements)
    }
}

} // verus!
