//! The typed failures of the engine. Every failure aborts the whole request:
//! there is no partial acceptance and no partial output.

use vstd::prelude::*;

verus! {

/// Why a request was refused. I/O failures live with the caller that does the
/// I/O; these are the failures of the engine's own logic.
#[derive(Clone, Copy, Debug, PartialEq, Eq, Structural)]
pub enum EngineError {
    /// A filter token does not match the grammar. Filters are all-or-nothing:
    /// one malformed token fails the whole request.
    MalformedFilter,
    /// A predicate references a column whose declared type cannot be
    /// compared against a numeric literal.
    UnsupportedType,
    /// A predicate's literal does not parse into the referenced column's
    /// native type.
    LiteralTypeError,
}

} // verus!
