//! The typed failures a grammar document can be rejected with.

use vstd::prelude::*;

verus! {

/// Why a document failed to parse, validate or evaluate.  Each carries the
/// offending name; a syntax failure carries the one-based line it was
/// found on.
#[derive(Clone, PartialEq, Debug)]
pub enum GrammarError {
    /// A token stream no statement form matches, or a value outside the
    /// representable range; the line, where one is known.
    Syntax(usize),
    /// A constant reference that no definition satisfies.
    UndefinedVariable(String),
    /// An invocation of a rule that is never declared.
    UnknownRule(String),
    /// A constant name defined a second time.
    DuplicateDefinition(String),
    /// A rule case added after an unconditional case of the same rule.
    UnreachableCase(String),
    /// A property key that is not one of the twelve.
    UnknownProperty(String),
}

} // verus!
