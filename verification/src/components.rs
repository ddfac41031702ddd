//! Built-in components

use vstd::prelude::*;

verus! {

/// The user-assigned name of an entity
#[derive(Debug, Clone)]
pub struct Name(pub String);

impl Name {
    /// Creates a new [Name] from the given string
    pub fn new(name: String) -> (r: Self)
        ensures
            r.0@ == name@,
    {
        Name(name)
    }

    /// The name as a string slice
    pub fn as_str(&self) -> (r: &str)
        ensures
            r@ == self.0@,
    {
        self.0.as_str()
    }
}

} // verus!
