//! One call site: a primitive or a rule reference with its properties.

use crate::primitive::Primitive;
use crate::properties::TempProperty;
use vstd::prelude::*;

verus! {

/// What an invocation calls: the synthetic document root, a primitive
/// shape, or a user rule by name.  The root is never matched against rule
/// cases.
#[derive(PartialEq, Debug)]
pub enum Method {
    Root,
    Primitive(Primitive),
    Rule(String),
}

impl Method {
    pub open spec fn wf(self) -> bool {
        match self {
            Method::Primitive(p) => p.wf(),
            _ => true,
        }
    }

    /// A structurally equal copy.
    pub fn duplicate(&self) -> (r: Self)
        ensures
            r == *self,
    {
        match self {
            Method::Root => Method::Root,
            Method::Primitive(p) => Method::Primitive(*p),
            Method::Rule(name) => Method::Rule(name.clone()),
        }
    }
}

/// One call to a primitive or a user rule, with its written properties in
/// declaration order.
#[derive(PartialEq, Debug)]
pub struct Invocation {
    pub method: Method,
    pub properties: Vec<TempProperty>,
}

impl Invocation {
    pub open spec fn wf(self) -> bool {
        &&& self.method.wf()
        &&& forall|i: int| 0 <= i < self.properties@.len() ==> (
        #[trigger] self.properties@[i]).value.wf()
    }

}

} // verus!
