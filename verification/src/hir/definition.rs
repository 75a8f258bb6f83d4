use vstd::prelude::*;

verus! {

/// The mathematical value of a top-level definition of the high-level IR.
pub ghost struct SpecDefinition<L, P> {
    pub name: Seq<char>,
    pub original_name: Seq<char>,
    pub lambda: L,
    pub foreign: bool,
    pub public: bool,
    pub position: P,
}

/// A top-level definition of the high-level IR: a named lambda, with the
/// name it had in the source, whether it is exported to foreign code, whether
/// it is public, and where it was defined.  The definition carries its lambda
/// (of type `L`) and its source position (of type `P`) as they are given.
#[derive(Clone, Debug, PartialEq)]
pub struct Definition<L, P> {
    name: String,
    original_name: String,
    lambda: L,
    foreign: bool,
    public: bool,
    position: P,
}

impl<L, P> View for Definition<L, P> {
    type V = SpecDefinition<L, P>;

    closed spec fn view(&self) -> SpecDefinition<L, P> {
        SpecDefinition {
            name: self.name@,
            original_name: self.original_name@,
            lambda: self.lambda,
            foreign: self.foreign,
            public: self.public,
            position: self.position,
        }
    }
}

impl<L, P> Definition<L, P> {
    pub fn new(
        name: String,
        original_name: String,
        lambda: L,
        foreign: bool,
        public: bool,
        position: P,
    ) -> (r: Self)
        ensures
            r@ == (SpecDefinition { name: name@, original_name: original_name@, lambda, foreign, public, position }),
    {
        Definition { name, original_name, lambda, foreign, public, position }
    }

    pub fn name(&self) -> (r: &str)
        ensures
            r@ == self@.name,
    {
        self.name.as_str()
    }

    pub fn original_name(&self) -> (r: &str)
        ensures
            r@ == self@.original_name,
    {
        self.original_name.as_str()
    }

    pub fn lambda(&self) -> (r: &L)
        ensures
            *r == self@.lambda,
    {
        &self.lambda
    }

    pub fn is_foreign(&self) -> (r: bool)
        ensures
            r == self@.foreign,
    {
        self.foreign
    }

    pub fn is_public(&self) -> (r: bool)
        ensures
            r == self@.public,
    {
        self.public
    }

    pub fn position(&self) -> (r: &P)
        ensures
            *r == self@.position,
    {
        &self.position
    }
}

} // verus!
