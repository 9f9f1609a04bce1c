//! Errors of parsing, with the area of the source file that they concern.

use vstd::prelude::*;
use crate::ast::{MatchPattern, MatchPatternView};
use crate::span::Span;

verus! {

/// What went wrong.
#[derive(Debug)]
pub enum Error {
    /// The number of bits of a bit string is not a power of two from 1 to 256.
    BitStringPow2(usize),
    /// The number of digits of a hex string is not a power of two from 2 to 64.
    HexStringPow2(usize),
    /// The bound of a list type is not a power of two greater than one.
    ListBoundPow2(usize),
    /// Text could not be read as what it should be.
    CannotParse(String),
    /// The two arms of a match do not fit together.
    IncompatibleMatchArms(MatchPattern, MatchPattern),
}

/// What an error stands for.
pub enum ErrorView {
    BitStringPow2(usize),
    HexStringPow2(usize),
    ListBoundPow2(usize),
    CannotParse(Seq<char>),
    IncompatibleMatchArms(MatchPatternView, MatchPatternView),
}

impl View for Error {
    type V = ErrorView;

    open spec fn view(&self) -> ErrorView {
        match self {
            Error::BitStringPow2(n) => ErrorView::BitStringPow2(*n),
            Error::HexStringPow2(n) => ErrorView::HexStringPow2(*n),
            Error::ListBoundPow2(n) => ErrorView::ListBoundPow2(*n),
            Error::CannotParse(m) => ErrorView::CannotParse(m@),
            Error::IncompatibleMatchArms(l, r) => ErrorView::IncompatibleMatchArms(l@, r@),
        }
    }
}

/// An error with the area of the source file where it happened.
#[derive(Debug)]
pub struct RichError {
    /// What went wrong.
    pub error: Error,
    /// Where it went wrong.
    pub span: Span,
}

/// What an error with its area stands for.
pub struct RichErrorView {
    pub error: ErrorView,
    pub span: Span,
}

impl View for RichError {
    type V = RichErrorView;

    open spec fn view(&self) -> RichErrorView {
        RichErrorView { error: self.error@, span: self.span }
    }
}

impl RichError {
    /// The error `error` at `span`.
    pub fn new(error: Error, span: Span) -> (res: Self)
        ensures
            res@ == (RichErrorView { error: error@, span }),
    {
        RichError { error, span }
    }
}

/// What the result `r` of parsing stands for.
pub open spec fn result_view<T: View>(r: Result<T, RichError>) -> Result<T::V, RichErrorView> {
    match r {
        Ok(t) => Ok(t@),
        Err(e) => Err(e@),
    }
}

} // verus!
