use vstd::prelude::*;

use crate::mir::types::{SpecType, Type};

verus! {

/// A named, typed argument (or free variable) of a function definition.
#[derive(Clone, Debug, PartialEq, Eq)]
pub struct Argument {
    name: String,
    type_: Type,
}

impl View for Argument {
    type V = (Seq<char>, SpecType);

    closed spec fn view(&self) -> (Seq<char>, SpecType) {
        (self.name@, self.type_@)
    }
}

impl Argument {
    pub fn new(name: String, type_: Type) -> (r: Argument)
        ensures
            r@ == (name@, type_@),
    {
        Argument { name, type_ }
    }

    pub fn name(&self) -> (r: &str)
        ensures
            r@ == self@.0,
    {
        self.name.as_str()
    }

    pub fn type_(&self) -> (r: &Type)
        ensures
            r@ == self@.1,
    {
        &self.type_
    }

    pub fn duplicate(&self) -> (r: Argument)
        ensures
            r@ == self@,
    {
        Argument { name: self.name.clone(), type_: self.type_.duplicate() }
    }
}

} // verus!
