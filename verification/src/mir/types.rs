use vstd::prelude::*;

verus! {

broadcast use vstd::std_specs::vec::group_vec_axioms;

/// The mathematical value of a type of the mid-level IR.
pub ghost enum SpecType {
    Boolean,
    ByteString,
    Function(Seq<SpecType>, Box<SpecType>),
    NoneType,
    Number,
    Record(Seq<char>),
    Variant,
}

/// A reference to a record type by its name.
#[derive(Clone, Debug, PartialEq, Eq)]
pub struct Record {
    name: String,
}

/// A function type: argument types and a result type.
#[derive(Debug, PartialEq, Eq)]
pub struct Function {
    arguments: Vec<Type>,
    result: Box<Type>,
}

/// A type of the mid-level IR.
#[derive(Debug, PartialEq, Eq)]
pub enum Type {
    Boolean,
    ByteString,
    Function(Function),
    NoneType,
    Number,
    Record(Record),
    Variant,
}

pub closed spec fn spec_type(t: Type) -> SpecType
    decreases t,
{
    match t {
        Type::Boolean => SpecType::Boolean,
        Type::ByteString => SpecType::ByteString,
        Type::Function(f) => {
            proof {
                assert(decreases_to!(f => f.arguments));
            }
            SpecType::Function(spec_types(f.arguments@), Box::new(spec_type(*f.result)))
        },
        Type::NoneType => SpecType::NoneType,
        Type::Number => SpecType::Number,
        Type::Record(r) => SpecType::Record(r.name_view()),
        Type::Variant => SpecType::Variant,
    }
}

pub closed spec fn spec_types(ts: Seq<Type>) -> Seq<SpecType>
    decreases ts,
{
    if ts.len() == 0 {
        Seq::empty()
    } else {
        spec_types(ts.drop_last()).push(spec_type(ts.last()))
    }
}


impl View for Type {
    type V = SpecType;

    open spec fn view(&self) -> SpecType {
        spec_type(*self)
    }
}

impl View for Function {
    type V = (Seq<SpecType>, SpecType);

    closed spec fn view(&self) -> (Seq<SpecType>, SpecType) {
        (spec_types(self.arguments@), spec_type(*self.result))
    }
}

/// The view of a type: its variant, with the view of a function type's
/// arguments and result and a record type's name.
pub proof fn lemma_type_view(t: Type)
    ensures
        t@ == match t {
            Type::Boolean => SpecType::Boolean,
            Type::ByteString => SpecType::ByteString,
            Type::Function(f) => SpecType::Function(f@.0, Box::new(f@.1)),
            Type::NoneType => SpecType::NoneType,
            Type::Number => SpecType::Number,
            Type::Record(r) => SpecType::Record(r.name_view()),
            Type::Variant => SpecType::Variant,
        },
{
}

pub proof fn lemma_spec_types_len(ts: Seq<Type>)
    ensures
        spec_types(ts).len() == ts.len(),
    decreases ts.len(),
{
    if ts.len() > 0 {
        lemma_spec_types_len(ts.drop_last());
    }
}

pub proof fn lemma_spec_types_index(ts: Seq<Type>, i: int)
    requires
        0 <= i < ts.len(),
    ensures
        spec_types(ts)[i] == ts[i]@,
    decreases ts.len(),
{
    lemma_spec_types_len(ts.drop_last());
    if i < ts.len() - 1 {
        lemma_spec_types_index(ts.drop_last(), i);
    }
}

impl Record {
    pub fn new(name: String) -> (r: Record)
        ensures
            r.name_view() == name@,
    {
        Record { name }
    }

    pub closed spec fn name_view(self) -> Seq<char> {
        self.name@
    }

    pub fn name(&self) -> (r: &str)
        ensures
            r@ == self.name_view(),
    {
        self.name.as_str()
    }
}

impl Function {
    /// The function type that takes `arguments` and returns `result`.
    pub fn new(arguments: Vec<Type>, result: Type) -> (r: Function)
        ensures
            r@ == (spec_types(arguments@), result@),
    {
        Function { arguments, result: Box::new(result) }
    }

    pub fn arguments(&self) -> (r: &[Type])
        ensures
            spec_types(r@) == self@.0,
    {
        self.arguments.as_slice()
    }

    pub fn result(&self) -> (r: &Type)
        ensures
            r@ == self@.1,
    {
        &self.result
    }
}

impl Type {
    pub fn duplicate(&self) -> (r: Type)
        ensures
            r@ == self@,
        decreases self,
    {
        match self {
            Type::Boolean => Type::Boolean,
            Type::ByteString => Type::ByteString,
            Type::Function(f) => Type::Function(f.duplicate()),
            Type::NoneType => Type::NoneType,
            Type::Number => Type::Number,
            Type::Record(r) => Type::Record(Record { name: r.name.clone() }),
            Type::Variant => Type::Variant,
        }
    }
}

impl Clone for Type {
    fn clone(&self) -> (r: Type)
        ensures
            r@ == self@,
    {
        self.duplicate()
    }
}

impl Clone for Function {
    fn clone(&self) -> (r: Function)
        ensures
            r@ == self@,
    {
        self.duplicate()
    }
}

impl Function {
    pub fn duplicate(&self) -> (r: Function)
        ensures
            r@ == self@,
        decreases self,
    {
        let mut arguments: Vec<Type> = Vec::new();
        let n = self.arguments.len();
        let mut i: usize = 0;
        while i < n
            invariant
                n == self.arguments.len(),
                i <= n,
                arguments@.len() == i,
                spec_types(arguments@) == spec_types(self.arguments@.subrange(0, i as int)),
            decreases n - i,
        {
            proof {
                assert(decreases_to!(self => self.arguments));
                assert(decreases_to!(self.arguments => self.arguments@[i as int]));
            }
            let t = self.arguments[i].duplicate();
            let ghost before = arguments@;
            arguments.push(t);
            assert(arguments@.drop_last() == before);
            assert(self.arguments@.subrange(0, i + 1).drop_last() == self.arguments@.subrange(0, i as int));
            i = i + 1;
        }
        assert(self.arguments@.subrange(0, n as int) == self.arguments@);
        proof {
            assert(decreases_to!(self => self.result));
        }
        let result = (*self.result).duplicate();
        Function { arguments, result: Box::new(result) }
    }
}

} // verus!
