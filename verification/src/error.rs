//! Source positions and the errors reported by the checker.
use vstd::prelude::*;

verus! {

/// A byte range of the source text.
#[derive(Clone, Copy, PartialEq, Eq, Structural, Debug)]
pub struct Span {
    pub start: usize,
    pub end: usize,
}

impl Span {
    /// The position attached to compiler-generated code.
    pub fn dummy() -> (r: Span)
        ensures
            r == (Span { start: 0, end: 0 }),
    {
        Span { start: 0, end: 0 }
    }
}

/// A type error, with the source position it concerns.
#[derive(Debug)]
#[allow(inconsistent_fields)]
pub enum TypeError {
    Unsupported { what: String, span: Span },
    UnexpectedArgumentCount { name: String, expected: usize, found: usize, span: Span },
    ExpectedBool { found: String, span: Span },
    ExpectedInt { found: String, span: Span },
    ExpectedNumeric { found: String, span: Span },
    WrongType { expected: String, found: String, span: Span },
    UndefinedType { name: String, span: Span },
    UnionMembersNotDisjoint { first: String, second: String, why: String, span: Span },
    GenericBoundMismatch { param: String, bound: String, ty: String, span: Span },
    FunctionNotFound { name: String, span: Span },
}

} // verus!
