use vstd::prelude::*;

use crate::mir::types::{SpecType, Type};

verus! {

/// An address inside the closure that a compiled function receives as its
/// first argument.
///
/// A closure is laid out as an entry function pointer, a metadata pointer and
/// a payload.  The payload of an ordinary closure is the record of its free
/// variables (its environment); the payload of a thunk is a union of that
/// record and the thunk's evaluated value.
#[derive(Debug, PartialEq, Eq)]
pub enum Address {
    /// The payload of the closure.
    Payload,
    /// A member of the union stored at an address.
    UnionMember(Box<Address>, usize),
    /// A field of the record stored at an address.
    RecordField(Box<Address>, usize),
}

/// The place in memory that an address denotes.  Every member of a union
/// lies where the union does, so an address and its union members share one
/// place; distinct fields of a record lie at distinct places.
pub open spec fn place(a: Address) -> Address
    decreases a,
{
    match a {
        Address::Payload => Address::Payload,
        Address::UnionMember(inner, _) => place(*inner),
        Address::RecordField(inner, i) => Address::RecordField(Box::new(place(*inner)), i),
    }
}

impl Address {
    pub fn duplicate(&self) -> (r: Address)
        ensures
            r == *self,
        decreases self,
    {
        match self {
            Address::Payload => Address::Payload,
            Address::UnionMember(inner, i) => Address::UnionMember(Box::new((**inner).duplicate()), *i),
            Address::RecordField(inner, i) => Address::RecordField(Box::new((**inner).duplicate()), *i),
        }
    }
}

impl Clone for Address {
    fn clone(&self) -> (r: Address)
        ensures
            r == *self,
    {
        self.duplicate()
    }
}

/// A slot of the closure: the value of type `type_` stored at `address`.
#[derive(Clone, Debug, PartialEq, Eq)]
pub struct Slot {
    pub address: Address,
    pub type_: Type,
}

impl Slot {
    pub fn clone_slot(&self) -> (r: Slot)
        ensures
            r@ == self@,
    {
        Slot { address: self.address.duplicate(), type_: self.type_.duplicate() }
    }
}

impl View for Slot {
    type V = (Address, SpecType);

    open spec fn view(&self) -> (Address, SpecType) {
        (self.address, self.type_@)
    }
}

} // verus!
