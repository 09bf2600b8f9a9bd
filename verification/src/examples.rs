//! Named sample documents.
//!
//! A catalog entry pairs a display name with a grammar document text; the
//! shell that shows a gallery owns the actual catalog.

use vstd::prelude::*;

verus! {

/// A saved creation: a name and its document text.
#[derive(Clone, PartialEq, Debug)]
pub struct Creation {
    pub name: String,
    pub text: String,
}

/// A built-in example: a name and its document text.
#[derive(Clone, Copy, PartialEq, Eq, Debug)]
pub struct Example {
    pub name: &'static str,
    pub text: &'static str,
}

} // verus!
