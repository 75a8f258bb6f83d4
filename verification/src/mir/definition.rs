use vstd::prelude::*;

use crate::mir::argument::Argument;
use crate::mir::types::{lemma_spec_types_index, lemma_spec_types_len, spec_types, Function, SpecType, Type};

verus! {

/// The mathematical value of a function definition of the mid-level IR,
/// generic over the representation `B` of its body.
pub ghost struct SpecDefinition<B> {
    pub name: Seq<char>,
    pub environment: Seq<(Seq<char>, SpecType)>,
    pub arguments: Seq<(Seq<char>, SpecType)>,
    pub body: B,
    pub result_type: SpecType,
    /// The function type: the argument types in order, and the result type.
    pub type_: (Seq<SpecType>, SpecType),
    pub is_thunk: bool,
}

/// The views of a sequence of arguments.
pub open spec fn arguments_view(arguments: Seq<Argument>) -> Seq<(Seq<char>, SpecType)> {
    arguments.map_values(|a: Argument| a@)
}

/// The views of arguments keep every argument, in order.
pub proof fn law_arguments_view_keeps_every_argument(arguments: Seq<Argument>)
    ensures
        arguments_view(arguments).len() == arguments.len(),
        forall|i: int| 0 <= i < arguments.len() ==> #[trigger] arguments_view(arguments)[i] == arguments[i]@,
{
}

/// The function type of a definition with the given arguments and result type:
/// the argument types in order, and the result type.
pub open spec fn function_type(
    arguments: Seq<(Seq<char>, SpecType)>,
    result_type: SpecType,
) -> (Seq<SpecType>, SpecType) {
    (arguments.map_values(|a: (Seq<char>, SpecType)| a.1), result_type)
}

/// The function type of a definition lists the type of every argument, in
/// order, and nothing else, and its result is the definition's result type.
pub proof fn law_function_type_lists_every_argument(
    arguments: Seq<(Seq<char>, SpecType)>,
    result_type: SpecType,
)
    ensures
        function_type(arguments, result_type).0.len() == arguments.len(),
        forall|i: int|
            0 <= i < arguments.len() ==> #[trigger] function_type(arguments, result_type).0[i] == arguments[i].1,
        function_type(arguments, result_type).1 == result_type,
{
}

/// A function definition of the mid-level IR.
///
/// Its function type is computed once, from its arguments and result type,
/// when it is built.
#[derive(Debug, PartialEq)]
pub struct Definition<B> {
    name: String,
    // The environment is inferred on module creation and this field is used
    // just as its cache, so definitions can be cloned across modules.
    environment: Vec<Argument>,
    arguments: Vec<Argument>,
    body: B,
    result_type: Type,
    type_: Function,
    is_thunk: bool,
}

impl<B: Clone> Clone for Definition<B> {
    /// A copy of the definition, with a clone of its body.
    fn clone(&self) -> (r: Self)
        ensures
            r@.name == self@.name,
            r@.environment == self@.environment,
            r@.arguments == self@.arguments,
            cloned(self@.body, r@.body),
            r@.result_type == self@.result_type,
            r@.type_ == self@.type_,
            r@.is_thunk == self@.is_thunk,
    {
        proof {
            use_type_invariant(self);
        }
        Definition {
            name: self.name.clone(),
            environment: duplicate_arguments(&self.environment),
            arguments: duplicate_arguments(&self.arguments),
            body: self.body.clone(),
            result_type: self.result_type.duplicate(),
            type_: self.type_.duplicate(),
            is_thunk: self.is_thunk,
        }
    }
}

fn duplicate_arguments(arguments: &Vec<Argument>) -> (r: Vec<Argument>)
    ensures
        arguments_view(r@) == arguments_view(arguments@),
{
    let mut r: Vec<Argument> = Vec::new();
    let n = arguments.len();
    let mut i: usize = 0;
    while i < n
        invariant
            n == arguments@.len(),
            i <= n,
            arguments_view(r@) == arguments_view(arguments@).take(i as int),
        decreases n - i,
    {
        let ghost before = r@;
        r.push(arguments[i].duplicate());
        assert(arguments_view(r@) =~= arguments_view(before).push(r@[i as int]@));
        assert(arguments_view(arguments@).take(i + 1) =~= arguments_view(arguments@).take(i as int).push(
            arguments@[i as int]@,
        ));
        i = i + 1;
    }
    assert(arguments_view(arguments@).take(n as int) =~= arguments_view(arguments@));
    r
}

/// The name under which the entry-function compiler looks definitions up.
pub type FunctionDefinition<B> = Definition<B>;

impl<B> View for Definition<B> {
    type V = SpecDefinition<B>;

    closed spec fn view(&self) -> SpecDefinition<B> {
        SpecDefinition {
            name: self.name@,
            environment: arguments_view(self.environment@),
            arguments: arguments_view(self.arguments@),
            body: self.body,
            result_type: self.result_type@,
            type_: self.type_@,
            is_thunk: self.is_thunk,
        }
    }
}

impl<B> Definition<B> {
    #[verifier::type_invariant]
    closed spec fn type_is_cached(self) -> bool {
        self.type_@ == function_type(arguments_view(self.arguments@), self.result_type@)
    }

    /// A definition of an ordinary function with an empty environment.
    pub fn new(name: String, arguments: Vec<Argument>, body: B, result_type: Type) -> (r: Self)
        ensures
            r@ == (SpecDefinition {
                name: name@,
                environment: Seq::empty(),
                arguments: arguments_view(arguments@),
                body,
                result_type: result_type@,
                type_: function_type(arguments_view(arguments@), result_type@),
                is_thunk: false,
            }),
    {
        let environment: Vec<Argument> = Vec::new();
        assert(arguments_view(environment@) =~= Seq::empty());
        Self::with_options(name, environment, arguments, body, result_type, false)
    }

    /// A definition of a thunk with an empty environment.
    pub fn thunk(name: String, arguments: Vec<Argument>, body: B, result_type: Type) -> (r: Self)
        ensures
            r@ == (SpecDefinition {
                name: name@,
                environment: Seq::empty(),
                arguments: arguments_view(arguments@),
                body,
                result_type: result_type@,
                type_: function_type(arguments_view(arguments@), result_type@),
                is_thunk: true,
            }),
    {
        let environment: Vec<Argument> = Vec::new();
        assert(arguments_view(environment@) =~= Seq::empty());
        Self::with_options(name, environment, arguments, body, result_type, true)
    }

    /// A definition of an ordinary function with the given environment.
    pub fn with_environment(
        name: String,
        environment: Vec<Argument>,
        arguments: Vec<Argument>,
        body: B,
        result_type: Type,
    ) -> (r: Self)
        ensures
            r@ == (SpecDefinition {
                name: name@,
                environment: arguments_view(environment@),
                arguments: arguments_view(arguments@),
                body,
                result_type: result_type@,
                type_: function_type(arguments_view(arguments@), result_type@),
                is_thunk: false,
            }),
    {
        Self::with_options(name, environment, arguments, body, result_type, false)
    }

    pub fn with_options(
        name: String,
        environment: Vec<Argument>,
        arguments: Vec<Argument>,
        body: B,
        result_type: Type,
        is_thunk: bool,
    ) -> (r: Self)
        ensures
            r@.arguments.len() == arguments@.len(),
            forall|i: int| 0 <= i < arguments@.len() ==> #[trigger] r@.arguments[i] == arguments@[i]@,
            r@.type_.0.len() == arguments@.len(),
            forall|i: int| 0 <= i < arguments@.len() ==> #[trigger] r@.type_.0[i] == arguments@[i]@.1,
            r@.type_.1 == result_type@,
            r@ == (SpecDefinition {
                name: name@,
                environment: arguments_view(environment@),
                arguments: arguments_view(arguments@),
                body,
                result_type: result_type@,
                type_: function_type(arguments_view(arguments@), result_type@),
                is_thunk,
            }),
    {
        let mut argument_types: Vec<Type> = Vec::new();
        let n = arguments.len();
        let mut i: usize = 0;
        while i < n
            invariant
                n == arguments.len(),
                i <= n,
                argument_types@.len() == i,
                forall|j: int| 0 <= j < i ==> #[trigger] argument_types@[j]@ == arguments@[j]@.1,
            decreases n - i,
        {
            argument_types.push(arguments[i].type_().duplicate());
            i = i + 1;
        }
        proof {
            lemma_spec_types_len(argument_types@);
            assert forall|j: int| 0 <= j < n implies #[trigger] spec_types(argument_types@)[j]
                == function_type(arguments_view(arguments@), result_type@).0[j] by {
                lemma_spec_types_index(argument_types@, j);
            }
            assert(spec_types(argument_types@) == function_type(
                arguments_view(arguments@),
                result_type@,
            ).0);
        }
        let type_ = Function::new(argument_types, result_type.duplicate());
        Definition { name, environment, arguments, body, result_type, type_, is_thunk }
    }

    pub fn name(&self) -> (r: &str)
        ensures
            r@ == self@.name,
    {
        self.name.as_str()
    }

    pub fn environment(&self) -> (r: &[Argument])
        ensures
            arguments_view(r@) == self@.environment,
    {
        self.environment.as_slice()
    }

    pub fn arguments(&self) -> (r: &[Argument])
        ensures
            arguments_view(r@) == self@.arguments,
    {
        self.arguments.as_slice()
    }

    pub fn body(&self) -> (r: &B)
        ensures
            *r == self@.body,
    {
        &self.body
    }

    pub fn result_type(&self) -> (r: &Type)
        ensures
            r@ == self@.result_type,
    {
        &self.result_type
    }

    /// The function type of the definition: its argument types in order and
    /// its result type.
    pub fn type_(&self) -> (r: &Function)
        ensures
            r@ == self@.type_,
            r@ == function_type(self@.arguments, self@.result_type),
            r@.0.len() == self@.arguments.len(),
            forall|i: int| 0 <= i < self@.arguments.len() ==> #[trigger] r@.0[i] == self@.arguments[i].1,
            r@.1 == self@.result_type,
    {
        proof {
            use_type_invariant(self);
            law_function_type_lists_every_argument(self@.arguments, self@.result_type);
        }
        &self.type_
    }

    pub fn is_thunk(&self) -> (r: bool)
        ensures
            r == self@.is_thunk,
    {
        self.is_thunk
    }
}

} // verus!
