//! Templates: named template sources that profiles register for
//! rendering.

use vstd::prelude::*;

verus! {

/// A named template source.
#[derive(Debug)]
pub struct Template {
    name: String,
    s: String,
}

impl Template {
    /// A template with an empty name and an empty source.
    pub fn new() -> (r: Template)
        ensures
            r.spec_name().len() == 0,
            r.spec_source().len() == 0,
    {
        Template { name: String::new(), s: String::new() }
    }

    pub closed spec fn spec_name(&self) -> Seq<char> {
        self.name@
    }

    pub closed spec fn spec_source(&self) -> Seq<char> {
        self.s@
    }

    /// A template with the given name and source.
    pub fn from_source(name: String, s: String) -> (r: Template)
        ensures
            r.spec_name() == name@,
            r.spec_source() == s@,
    {
        Template { name, s }
    }

    pub fn name(&self) -> (r: &String)
        ensures
            r@ == self.spec_name(),
    {
        &self.name
    }

    pub fn source(&self) -> (r: &String)
        ensures
            r@ == self.spec_source(),
    {
        &self.s
    }
}

} // verus!
