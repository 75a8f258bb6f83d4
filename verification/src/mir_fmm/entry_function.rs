use vstd::prelude::*;

use crate::mir::argument::Argument;
use crate::mir::definition::{Definition, SpecDefinition};
use crate::mir::definition::arguments_view;
use crate::mir::types::{SpecType, Type};
use crate::mir_fmm::closure;
use crate::mir_fmm::closure::drop::{drop_function_argument, normal_thunk_drop_slot, DropFunction};
use crate::mir_fmm::layout::{place, Address, Slot};
use crate::mir_fmm::thunk::{fresh, run_finish, run_initial, Entry, InitialStep, SpecThunk};
use crate::mir_fmm::scope::{Binding, Scope, SpecBinding};

verus! {

/// The map that results from binding each name of `s` in order, a later
/// binding of a name replacing an earlier one.
pub open spec fn insert_all(
    m: Map<Seq<char>, SpecBinding>,
    s: Seq<(Seq<char>, SpecBinding)>,
) -> Map<Seq<char>, SpecBinding>
    decreases s.len(),
{
    if s.len() == 0 {
        m
    } else {
        insert_all(m, s.drop_last()).insert(s.last().0, s.last().1)
    }
}

/// Where the environment (the record of free variables) of a closure lies:
/// the payload itself, or the first member of the payload union of a thunk.
pub open spec fn environment_address(is_thunk: bool) -> Address {
    if is_thunk {
        Address::UnionMember(Box::new(Address::Payload), 0)
    } else {
        Address::Payload
    }
}

/// Where the value of an evaluated thunk lies: the second member of the
/// payload union.
pub open spec fn thunk_value_address() -> Address {
    Address::UnionMember(Box::new(Address::Payload), 1)
}

/// The bindings of the variables given by the caller.
pub open spec fn given_entries(names: Seq<Seq<char>>) -> Seq<(Seq<char>, SpecBinding)> {
    Seq::new(names.len(), |i: int| (names[i], SpecBinding::Given(i)))
}

/// The bindings of the free variables of a definition, each loaded from its
/// field of the environment record.
pub open spec fn free_variable_entries<B>(d: SpecDefinition<B>) -> Seq<(Seq<char>, SpecBinding)> {
    Seq::new(
        d.environment.len(),
        |j: int|
            (
                d.environment[j].0,
                SpecBinding::FreeVariable(
                    Address::RecordField(Box::new(environment_address(d.is_thunk)), j as usize),
                    d.environment[j].1,
                ),
            ),
    )
}

/// The binding of the name of a definition to its own closure, for a
/// definition that is not global.
pub open spec fn self_entries<B>(d: SpecDefinition<B>, global: bool) -> Seq<(Seq<char>, SpecBinding)> {
    if global {
        Seq::empty()
    } else {
        seq![(d.name, SpecBinding::Closure)]
    }
}

/// The bindings of the arguments of a definition.
pub open spec fn argument_entries<B>(d: SpecDefinition<B>) -> Seq<(Seq<char>, SpecBinding)> {
    Seq::new(d.arguments.len(), |k: int| (d.arguments[k].0, SpecBinding::Argument(k)))
}

/// The scope in which the body of a definition is compiled: the given
/// variables, then the free variables, then (unless the definition is global)
/// the definition's own name, then the arguments, each layer replacing the
/// bindings of the names it binds again.
pub open spec fn body_scope<B>(
    given: Seq<Seq<char>>,
    d: SpecDefinition<B>,
    global: bool,
) -> Map<Seq<char>, SpecBinding> {
    insert_all(
        insert_all(
            insert_all(insert_all(Map::empty(), given_entries(given)), free_variable_entries(d)),
            self_entries(d, global),
        ),
        argument_entries(d),
    )
}

/// The names held by a sequence of strings.
pub open spec fn names_of(variables: Seq<String>) -> Seq<Seq<char>> {
    variables.map_values(|s: String| s@)
}

proof fn lemma_insert_all_step(
    m: Map<Seq<char>, SpecBinding>,
    s: Seq<(Seq<char>, SpecBinding)>,
    i: int,
)
    requires
        0 <= i < s.len(),
    ensures
        insert_all(m, s.take(i + 1)) == insert_all(m, s.take(i)).insert(s[i].0, s[i].1),
{
    assert(s.take(i + 1).drop_last() == s.take(i));
}

proof fn lemma_insert_all_absent(
    m: Map<Seq<char>, SpecBinding>,
    s: Seq<(Seq<char>, SpecBinding)>,
    k: Seq<char>,
)
    requires
        forall|i: int| 0 <= i < s.len() ==> #[trigger] s[i].0 != k,
    ensures
        insert_all(m, s).dom().contains(k) == m.dom().contains(k),
        insert_all(m, s)[k] == m[k],
    decreases s.len(),
{
    if s.len() > 0 {
        assert(s.last().0 != k);
        lemma_insert_all_absent(m, s.drop_last(), k);
    }
}

proof fn lemma_insert_all_last(
    m: Map<Seq<char>, SpecBinding>,
    s: Seq<(Seq<char>, SpecBinding)>,
    i: int,
)
    requires
        0 <= i < s.len(),
        forall|j: int| i < j < s.len() ==> #[trigger] s[j].0 != s[i].0,
    ensures
        insert_all(m, s).dom().contains(s[i].0),
        insert_all(m, s)[s[i].0] == s[i].1,
    decreases s.len(),
{
    if i < s.len() - 1 {
        assert(s.last().0 != s[i].0);
        lemma_insert_all_last(m, s.drop_last(), i);
    }
}

proof fn lemma_insert_all_dom(m: Map<Seq<char>, SpecBinding>, s: Seq<(Seq<char>, SpecBinding)>)
    ensures
        insert_all(m, s).dom() == m.dom() + Set::new(
            |k: Seq<char>| exists|i: int| 0 <= i < s.len() && #[trigger] s[i].0 == k,
        ),
    decreases s.len(),
{
    let keys = Set::new(|k: Seq<char>| exists|i: int| 0 <= i < s.len() && #[trigger] s[i].0 == k);
    if s.len() == 0 {
        assert(insert_all(m, s).dom() =~= m.dom() + keys);
    } else {
        let t = s.drop_last();
        lemma_insert_all_dom(m, t);
        let keys_t = Set::new(|k: Seq<char>| exists|i: int| 0 <= i < t.len() && #[trigger] t[i].0 == k);
        assert forall|k: Seq<char>| keys.contains(k) <==> keys_t.contains(k) || k == s.last().0 by {
            if keys.contains(k) {
                let i = choose|i: int| 0 <= i < s.len() && #[trigger] s[i].0 == k;
                if i < s.len() - 1 {
                    assert(t[i].0 == k);
                }
            }
            if keys_t.contains(k) {
                let i = choose|i: int| 0 <= i < t.len() && #[trigger] t[i].0 == k;
                assert(s[i].0 == k);
            }
            if k == s.last().0 {
                assert(s[s.len() - 1].0 == k);
            }
        }
        assert(insert_all(m, s).dom() =~= m.dom() + keys);
    }
}

/// The names that a sequence of bindings binds.
pub open spec fn bound_names(s: Seq<(Seq<char>, SpecBinding)>) -> Set<Seq<char>> {
    Set::new(|k: Seq<char>| exists|i: int| 0 <= i < s.len() && #[trigger] s[i].0 == k)
}

/// The names of a sequence of arguments.
pub open spec fn argument_names(arguments: Seq<(Seq<char>, SpecType)>) -> Set<Seq<char>> {
    Set::new(|k: Seq<char>| exists|i: int| 0 <= i < arguments.len() && #[trigger] arguments[i].0 == k)
}

/// The body of a definition sees exactly the given variables, its free
/// variables, its arguments and, unless it is global, its own name.
pub proof fn law_body_scope_names<B>(given: Seq<Seq<char>>, d: SpecDefinition<B>, global: bool)
    ensures
        body_scope(given, d, global).dom() == given.to_set() + argument_names(d.environment)
            + argument_names(d.arguments) + (if global {
            Set::empty()
        } else {
            set![d.name]
        }),
{
    let g = given_entries(given);
    let f = free_variable_entries(d);
    let e = self_entries(d, global);
    let a = argument_entries(d);
    let m0 = Map::<Seq<char>, SpecBinding>::empty();
    lemma_insert_all_dom(m0, g);
    lemma_insert_all_dom(insert_all(m0, g), f);
    lemma_insert_all_dom(insert_all(insert_all(m0, g), f), e);
    lemma_insert_all_dom(insert_all(insert_all(insert_all(m0, g), f), e), a);
    assert(bound_names(g) =~= given.to_set()) by {
        assert forall|k: Seq<char>| bound_names(g).contains(k) <==> given.to_set().contains(k) by {
            if given.to_set().contains(k) {
                let i = choose|i: int| 0 <= i < given.len() && given[i] == k;
                assert(g[i].0 == k);
            }
        }
    }
    assert(bound_names(f) =~= argument_names(d.environment)) by {
        assert forall|k: Seq<char>| bound_names(f).contains(k) <==> argument_names(d.environment).contains(k) by {
            if argument_names(d.environment).contains(k) {
                let i = choose|i: int| 0 <= i < d.environment.len() && #[trigger] d.environment[i].0 == k;
                assert(f[i].0 == k);
            }
        }
    }
    assert(bound_names(a) =~= argument_names(d.arguments)) by {
        assert forall|k: Seq<char>| bound_names(a).contains(k) <==> argument_names(d.arguments).contains(k) by {
            if argument_names(d.arguments).contains(k) {
                let i = choose|i: int| 0 <= i < d.arguments.len() && #[trigger] d.arguments[i].0 == k;
                assert(a[i].0 == k);
            }
        }
    }
    assert(bound_names(e) =~= (if global { Set::empty() } else { set![d.name] })) by {
        if !global {
            assert(e[0].0 == d.name);
        }
    }
    assert(m0.dom() =~= Set::empty());
    assert(body_scope(given, d, global).dom() =~= given.to_set() + argument_names(d.environment)
        + argument_names(d.arguments) + (if global { Set::empty() } else { set![d.name] }));
}

/// An argument is bound to itself in the body, whatever else has its name:
/// the last argument of a name wins.
pub proof fn law_arguments_shadow_everything<B>(
    given: Seq<Seq<char>>,
    d: SpecDefinition<B>,
    global: bool,
    k: int,
)
    requires
        0 <= k < d.arguments.len(),
        forall|j: int| k < j < d.arguments.len() ==> #[trigger] d.arguments[j].0 != d.arguments[k].0,
    ensures
        body_scope(given, d, global).dom().contains(d.arguments[k].0),
        body_scope(given, d, global)[d.arguments[k].0] == SpecBinding::Argument(k),
{
    let a = argument_entries(d);
    assert forall|j: int| k < j < a.len() implies #[trigger] a[j].0 != a[k].0 by {
        assert(d.arguments[j].0 != d.arguments[k].0);
    }
    lemma_insert_all_last(
        insert_all(
            insert_all(insert_all(Map::empty(), given_entries(given)), free_variable_entries(d)),
            self_entries(d, global),
        ),
        a,
        k,
    );
}

/// A definition that is not global sees its own closure under its name,
/// unless an argument has that name.
pub proof fn law_local_definition_sees_its_closure<B>(given: Seq<Seq<char>>, d: SpecDefinition<B>)
    requires
        !argument_names(d.arguments).contains(d.name),
    ensures
        body_scope(given, d, false).dom().contains(d.name),
        body_scope(given, d, false)[d.name] == SpecBinding::Closure,
{
    let a = argument_entries(d);
    assert forall|j: int| 0 <= j < a.len() implies #[trigger] a[j].0 != d.name by {
        if a[j].0 == d.name {
            assert(d.arguments[j].0 == d.name);
        }
    }
    let base = insert_all(insert_all(Map::empty(), given_entries(given)), free_variable_entries(d));
    let e = self_entries(d, false);
    assert(e.drop_last() =~= Seq::<(Seq<char>, SpecBinding)>::empty());
    assert(insert_all(base, e) == insert_all(base, e.drop_last()).insert(d.name, SpecBinding::Closure));
    lemma_insert_all_absent(insert_all(base, e), a, d.name);
}

/// A free variable is bound to a new reference to the value in its field of
/// the environment, unless an argument or (for a definition that is not
/// global) the definition's own name hides it.
pub proof fn law_free_variables_come_from_the_environment<B>(
    given: Seq<Seq<char>>,
    d: SpecDefinition<B>,
    global: bool,
    j: int,
)
    requires
        0 <= j < d.environment.len(),
        forall|i: int| j < i < d.environment.len() ==> #[trigger] d.environment[i].0 != d.environment[j].0,
        !argument_names(d.arguments).contains(d.environment[j].0),
        global || d.environment[j].0 != d.name,
    ensures
        body_scope(given, d, global).dom().contains(d.environment[j].0),
        body_scope(given, d, global)[d.environment[j].0] == SpecBinding::FreeVariable(
            Address::RecordField(
                Box::new(
                    if d.is_thunk {
                        Address::UnionMember(Box::new(Address::Payload), 0)
                    } else {
                        Address::Payload
                    },
                ),
                j as usize,
            ),
            d.environment[j].1,
        ),
{
    let name = d.environment[j].0;
    let f = free_variable_entries(d);
    let e = self_entries(d, global);
    let a = argument_entries(d);
    assert forall|i: int| j < i < f.len() implies #[trigger] f[i].0 != f[j].0 by {
        assert(d.environment[i].0 != d.environment[j].0);
    }
    let m1 = insert_all(Map::empty(), given_entries(given));
    lemma_insert_all_last(m1, f, j);
    assert forall|i: int| 0 <= i < e.len() implies #[trigger] e[i].0 != name by {}
    lemma_insert_all_absent(insert_all(m1, f), e, name);
    assert forall|i: int| 0 <= i < a.len() implies #[trigger] a[i].0 != name by {
        if a[i].0 == name {
            assert(d.arguments[i].0 == name);
        }
    }
    lemma_insert_all_absent(insert_all(insert_all(m1, f), e), a, name);
}

/// A variable that the caller gives stays visible in the body unless a free
/// variable, an argument or (for a definition that is not global) the
/// definition's own name has its name.  In particular a global definition does
/// not hide the global function of its own name.
pub proof fn law_given_variables_stay_visible<B>(
    given: Seq<Seq<char>>,
    d: SpecDefinition<B>,
    global: bool,
    i: int,
)
    requires
        0 <= i < given.len(),
        forall|j: int| i < j < given.len() ==> #[trigger] given[j] != given[i],
        !argument_names(d.environment).contains(given[i]),
        !argument_names(d.arguments).contains(given[i]),
        global || given[i] != d.name,
    ensures
        body_scope(given, d, global).dom().contains(given[i]),
        body_scope(given, d, global)[given[i]] == SpecBinding::Given(i),
{
    let name = given[i];
    let g = given_entries(given);
    let f = free_variable_entries(d);
    let e = self_entries(d, global);
    let a = argument_entries(d);
    assert forall|j: int| i < j < g.len() implies #[trigger] g[j].0 != g[i].0 by {
        assert(given[j] != given[i]);
    }
    let m0 = Map::<Seq<char>, SpecBinding>::empty();
    lemma_insert_all_last(m0, g, i);
    assert forall|j: int| 0 <= j < f.len() implies #[trigger] f[j].0 != name by {
        if f[j].0 == name {
            assert(d.environment[j].0 == name);
        }
    }
    lemma_insert_all_absent(insert_all(m0, g), f, name);
    assert forall|j: int| 0 <= j < e.len() implies #[trigger] e[j].0 != name by {}
    lemma_insert_all_absent(insert_all(insert_all(m0, g), f), e, name);
    assert forall|j: int| 0 <= j < a.len() implies #[trigger] a[j].0 != name by {
        if a[j].0 == name {
            assert(d.arguments[j].0 == name);
        }
    }
    lemma_insert_all_absent(insert_all(insert_all(insert_all(m0, g), f), e), a, name);
}

/// Where the environment of the closure of `definition` lies.
pub fn environment_pointer<B>(definition: &Definition<B>) -> (r: Address)
    ensures
        r == environment_address(definition@.is_thunk),
        r == (if definition@.is_thunk {
            Address::UnionMember(Box::new(Address::Payload), 0)
        } else {
            Address::Payload
        }),
{
    if definition.is_thunk() {
        Address::UnionMember(Box::new(Address::Payload), 0)
    } else {
        Address::Payload
    }
}

/// Where the value of the thunk of `definition` lies once it is evaluated.
pub fn thunk_value_pointer<B>(definition: &Definition<B>) -> (r: Address)
    ensures
        r == thunk_value_address(),
        r == Address::UnionMember(Box::new(Address::Payload), 1),
{
    Address::UnionMember(Box::new(Address::Payload), 1)
}

/// The scope in which the body of `definition` is compiled, given the names
/// of the variables that the caller binds (global functions, or the variables
/// of an enclosing scope).  A global definition does not bind its own name, so
/// a variable that the caller gives under that name stays visible.
pub fn body_scope_of<B>(variables: &[String], definition: &Definition<B>, global: bool) -> (r: Scope)
    ensures
        r@ == body_scope(names_of(variables@), definition@, global),
{
    let mut scope = Scope::new();
    let ghost given = given_entries(names_of(variables@));
    let n = variables.len();
    let mut i: usize = 0;
    assert(given.take(0) =~= Seq::<(Seq<char>, SpecBinding)>::empty());
    while i < n
        invariant
            n == variables@.len(),
            given == given_entries(names_of(variables@)),
            i <= n,
            scope@ == insert_all(Map::empty(), given.take(i as int)),
        decreases n - i,
    {
        proof {
            lemma_insert_all_step(Map::empty(), given, i as int);
        }
        scope.insert(variables[i].clone(), Binding::Given(i));
        i = i + 1;
    }
    assert(given.take(n as int) == given);
    let ghost base = scope@;

    let environment = definition.environment();
    let ghost free = free_variable_entries(definition@);
    let m = environment.len();
    let mut j: usize = 0;
    assert(free.take(0) =~= Seq::<(Seq<char>, SpecBinding)>::empty());
    while j < m
        invariant
            m == environment@.len(),
            arguments_view(environment@) == definition@.environment,
            free == free_variable_entries(definition@),
            j <= m,
            scope@ == insert_all(base, free.take(j as int)),
        decreases m - j,
    {
        proof {
            lemma_insert_all_step(base, free, j as int);
        }
        let free_variable: &Argument = &environment[j];
        let address = Address::RecordField(Box::new(environment_pointer(definition)), j);
        scope.insert(
            free_variable.name().to_owned(),
            Binding::FreeVariable(address, free_variable.type_().duplicate()),
        );
        j = j + 1;
    }
    assert(free.take(m as int) == free);
    let ghost base = scope@;

    if !global {
        scope.insert(definition.name().to_owned(), Binding::Closure);
    }
    assert(scope@ == insert_all(base, self_entries(definition@, global))) by {
        let e = self_entries(definition@, global);
        assert(insert_all(base, Seq::<(Seq<char>, SpecBinding)>::empty()) == base);
        if !global {
            assert(e.drop_last() =~= Seq::<(Seq<char>, SpecBinding)>::empty());
            assert(insert_all(base, e) == insert_all(base, e.drop_last()).insert(e.last().0, e.last().1));
        }
    }
    let ghost base = scope@;

    let arguments = definition.arguments();
    let ghost args = argument_entries(definition@);
    let l = arguments.len();
    let mut k: usize = 0;
    assert(args.take(0) =~= Seq::<(Seq<char>, SpecBinding)>::empty());
    while k < l
        invariant
            l == arguments@.len(),
            arguments_view(arguments@) == definition@.arguments,
            args == argument_entries(definition@),
            k <= l,
            scope@ == insert_all(base, args.take(k as int)),
        decreases l - k,
    {
        proof {
            lemma_insert_all_step(base, args, k as int);
        }
        scope.insert(arguments[k].name().to_owned(), Binding::Argument(k));
        k = k + 1;
    }
    assert(args.take(l as int) == args);
    scope
}

/// The name of the first argument of every entry function: the closure
/// through which the function is called.
pub const CLOSURE_NAME: &'static str = "_closure";

/// The type of an argument of an entry function.
#[derive(Clone, Debug, PartialEq, Eq)]
pub enum EntryArgumentType {
    /// The closure, passed as an untyped pointer.
    UntypedClosurePointer,
    /// The closure, passed as an integer of the size of a pointer (as drop
    /// functions receive it).
    PointerInteger,
    /// A value of a type of the mid-level IR.
    Value(Type),
}

pub ghost enum SpecEntryArgumentType {
    UntypedClosurePointer,
    PointerInteger,
    Value(SpecType),
}

impl View for EntryArgumentType {
    type V = SpecEntryArgumentType;

    open spec fn view(&self) -> SpecEntryArgumentType {
        match self {
            EntryArgumentType::UntypedClosurePointer => SpecEntryArgumentType::UntypedClosurePointer,
            EntryArgumentType::PointerInteger => SpecEntryArgumentType::PointerInteger,
            EntryArgumentType::Value(t) => SpecEntryArgumentType::Value(t@),
        }
    }
}

/// An argument of an entry function.
#[derive(Clone, Debug, PartialEq, Eq)]
pub struct EntryArgument {
    pub name: String,
    pub type_: EntryArgumentType,
}

impl View for EntryArgument {
    type V = (Seq<char>, SpecEntryArgumentType);

    open spec fn view(&self) -> (Seq<char>, SpecEntryArgumentType) {
        (self.name@, self.type_@)
    }
}

pub open spec fn entry_arguments_view(arguments: Seq<EntryArgument>) -> Seq<(Seq<char>, SpecEntryArgumentType)> {
    arguments.map_values(|a: EntryArgument| a@)
}

/// The arguments of the entry functions of a definition: the closure, then
/// the arguments of the definition in order.
pub open spec fn entry_arguments<B>(d: SpecDefinition<B>) -> Seq<(Seq<char>, SpecEntryArgumentType)> {
    seq![(CLOSURE_NAME@, SpecEntryArgumentType::UntypedClosurePointer)] + d.arguments.map_values(
        |a: (Seq<char>, SpecType)| (a.0, SpecEntryArgumentType::Value(a.1)),
    )
}

/// The slots of the free variables of a definition: the fields of its
/// environment, with their types.
pub open spec fn environment_slots<B>(d: SpecDefinition<B>) -> Seq<(Address, SpecType)> {
    Seq::new(
        d.environment.len(),
        |j: int|
            (
                Address::RecordField(Box::new(environment_address(d.is_thunk)), j as usize),
                d.environment[j].1,
            ),
    )
}

pub open spec fn slots_view(slots: Seq<Slot>) -> Seq<(Address, SpecType)> {
    slots.map_values(|s: Slot| s@)
}

/// The views of sequences keep every element, in order.
pub proof fn law_views_keep_every_element(
    names: Seq<String>,
    arguments: Seq<EntryArgument>,
    slots: Seq<Slot>,
    code: Seq<Instruction>,
)
    ensures
        names_of(names).len() == names.len(),
        forall|i: int| 0 <= i < names.len() ==> #[trigger] names_of(names)[i] == names[i]@,
        entry_arguments_view(arguments).len() == arguments.len(),
        forall|i: int| 0 <= i < arguments.len() ==> #[trigger] entry_arguments_view(arguments)[i] == arguments[i]@,
        slots_view(slots).len() == slots.len(),
        forall|i: int| 0 <= i < slots.len() ==> #[trigger] slots_view(slots)[i] == slots[i]@,
        instructions_view(code).len() == code.len(),
        forall|i: int| 0 <= i < code.len() ==> #[trigger] instructions_view(code)[i] == code[i]@,
{
}

/// Every entry function takes the closure first, then every argument of the
/// definition, in order, with its name and type, and nothing else.
pub proof fn law_entry_arguments_cover_every_argument<B>(d: SpecDefinition<B>)
    ensures
        entry_arguments(d).len() == d.arguments.len() + 1,
        entry_arguments(d)[0] == (CLOSURE_NAME@, SpecEntryArgumentType::UntypedClosurePointer),
        forall|i: int|
            0 <= i < d.arguments.len() ==> #[trigger] entry_arguments(d)[i + 1] == (
                d.arguments[i].0,
                SpecEntryArgumentType::Value(d.arguments[i].1),
            ),
{
}

/// There is one environment slot per free variable: slot `j` is field `j` of
/// the environment record (which is the payload, or the first member of the
/// payload union of a thunk), with the type of free variable `j`.
pub proof fn law_environment_slots_cover_every_free_variable<B>(d: SpecDefinition<B>)
    ensures
        environment_slots(d).len() == d.environment.len(),
        forall|j: int|
            0 <= j < d.environment.len() ==> #[trigger] environment_slots(d)[j] == (
                Address::RecordField(
                    Box::new(
                        if d.is_thunk {
                            Address::UnionMember(Box::new(Address::Payload), 0)
                        } else {
                            Address::Payload
                        },
                    ),
                    j as usize,
                ),
                d.environment[j].1,
            ),
{
}

/// The arguments of the entry functions of `definition`.
pub fn compile_arguments<B>(definition: &Definition<B>) -> (r: Vec<EntryArgument>)
    ensures
        entry_arguments_view(r@) == entry_arguments(definition@),
        r@.len() == definition@.arguments.len() + 1,
        r@[0]@ == (CLOSURE_NAME@, SpecEntryArgumentType::UntypedClosurePointer),
        forall|i: int|
            0 <= i < definition@.arguments.len() ==> #[trigger] r@[i + 1]@ == (
                definition@.arguments[i].0,
                SpecEntryArgumentType::Value(definition@.arguments[i].1),
            ),
{
    proof {
        law_entry_arguments_cover_every_argument(definition@);
    }
    let mut r: Vec<EntryArgument> = Vec::new();
    r.push(
        EntryArgument {
            name: CLOSURE_NAME.to_owned(),
            type_: EntryArgumentType::UntypedClosurePointer,
        },
    );
    let arguments = definition.arguments();
    let n = arguments.len();
    let mut i: usize = 0;
    while i < n
        invariant
            n == arguments@.len(),
            arguments_view(arguments@) == definition@.arguments,
            i <= n,
            r@.len() == i + 1,
            entry_arguments_view(r@) == entry_arguments(definition@).take(i + 1),
        decreases n - i,
    {
        let argument: &Argument = &arguments[i];
        let ghost before = r@;
        r.push(
            EntryArgument {
                name: argument.name().to_owned(),
                type_: EntryArgumentType::Value(argument.type_().duplicate()),
            },
        );
        assert(entry_arguments_view(r@) =~= entry_arguments_view(before).push(r@[i + 1]@));
        assert(entry_arguments(definition@).take(i + 2) =~= entry_arguments(definition@).take(i + 1).push(
            entry_arguments(definition@)[i + 1],
        ));
        i = i + 1;
    }
    assert(entry_arguments(definition@).take(n + 1) =~= entry_arguments(definition@));
    assert forall|i: int| 0 <= i < definition@.arguments.len() implies #[trigger] r@[i + 1]@ == (
        definition@.arguments[i].0,
        SpecEntryArgumentType::Value(definition@.arguments[i].1),
    ) by {
        assert(entry_arguments_view(r@)[i + 1] == r@[i + 1]@);
    }
    assert(entry_arguments_view(r@)[0] == r@[0]@);
    r
}

/// The variables through which an entry function passes its own arguments on
/// to another entry function of the same closure, in order.
pub fn compile_argument_variables(arguments: &[EntryArgument]) -> (r: Vec<EntryArgument>)
    ensures
        entry_arguments_view(r@) == entry_arguments_view(arguments@),
{
    let mut r: Vec<EntryArgument> = Vec::new();
    let n = arguments.len();
    let mut i: usize = 0;
    while i < n
        invariant
            n == arguments@.len(),
            i <= n,
            entry_arguments_view(r@) == entry_arguments_view(arguments@).take(i as int),
        decreases n - i,
    {
        let argument = &arguments[i];
        let type_ = match &argument.type_ {
            EntryArgumentType::UntypedClosurePointer => EntryArgumentType::UntypedClosurePointer,
            EntryArgumentType::PointerInteger => EntryArgumentType::PointerInteger,
            EntryArgumentType::Value(t) => EntryArgumentType::Value(t.duplicate()),
        };
        let ghost before = r@;
        r.push(EntryArgument { name: argument.name.clone(), type_ });
        assert(entry_arguments_view(r@) =~= entry_arguments_view(before).push(r@[i as int]@));
        assert(entry_arguments_view(arguments@).take(i + 1) =~= entry_arguments_view(arguments@).take(
            i as int,
        ).push(arguments@[i as int]@));
        i = i + 1;
    }
    assert(entry_arguments_view(arguments@).take(n as int) =~= entry_arguments_view(arguments@));
    r
}

/// The slots of the free variables of `definition`.
pub fn environment_slots_of<B>(definition: &Definition<B>) -> (r: Vec<Slot>)
    ensures
        slots_view(r@) == environment_slots(definition@),
        r@.len() == definition@.environment.len(),
        forall|j: int|
            0 <= j < definition@.environment.len() ==> #[trigger] r@[j]@ == (
                Address::RecordField(
                    Box::new(
                        if definition@.is_thunk {
                            Address::UnionMember(Box::new(Address::Payload), 0)
                        } else {
                            Address::Payload
                        },
                    ),
                    j as usize,
                ),
                definition@.environment[j].1,
            ),
{
    proof {
        law_environment_slots_cover_every_free_variable(definition@);
    }
    let mut r: Vec<Slot> = Vec::new();
    let environment = definition.environment();
    let n = environment.len();
    let mut j: usize = 0;
    while j < n
        invariant
            n == environment@.len(),
            arguments_view(environment@) == definition@.environment,
            j <= n,
            slots_view(r@) == environment_slots(definition@).take(j as int),
        decreases n - j,
    {
        let ghost before = r@;
        r.push(
            Slot {
                address: Address::RecordField(Box::new(environment_pointer(definition)), j),
                type_: environment[j].type_().duplicate(),
            },
        );
        assert(slots_view(r@) =~= slots_view(before).push(r@[j as int]@));
        assert(environment_slots(definition@).take(j + 1) =~= environment_slots(definition@).take(
            j as int,
        ).push(environment_slots(definition@)[j as int]));
        j = j + 1;
    }
    assert(environment_slots(definition@).take(n as int) =~= environment_slots(definition@));
    assert forall|j: int| 0 <= j < definition@.environment.len() implies #[trigger] r@[j]@
        == environment_slots(definition@)[j] by {
        assert(slots_view(r@)[j] == r@[j]@);
    }
    r
}

/// How a function is called.
#[derive(Clone, Copy, Debug, PartialEq, Eq, Structural)]
pub enum CallingConvention {
    /// The convention of functions compiled from source programs.
    Source,
    /// The convention of the target platform's C functions.
    Target,
}

/// Whether a defined function is visible outside its module.
#[derive(Clone, Copy, Debug, PartialEq, Eq, Structural)]
pub enum Linkage {
    External,
    Internal,
}

/// The options with which a function is defined.
#[derive(Clone, Copy, Debug, PartialEq, Eq, Structural)]
pub struct DefinitionOptions {
    /// Whether the function's address is significant (may be compared).
    pub address_named: bool,
    pub calling_convention: CallingConvention,
    pub linkage: Linkage,
}

/// The options of every entry function: an unnamed address, the source
/// calling convention and internal linkage.
pub open spec fn entry_options() -> DefinitionOptions {
    DefinitionOptions {
        address_named: false,
        calling_convention: CallingConvention::Source,
        linkage: Linkage::Internal,
    }
}

pub fn entry_function_definition_options() -> (r: DefinitionOptions)
    ensures
        r == entry_options(),
{
    DefinitionOptions {
        address_named: false,
        calling_convention: CallingConvention::Source,
        linkage: Linkage::Internal,
    }
}

/// The memory ordering of an atomic access to the entry of a closure.
#[derive(Clone, Copy, Debug, PartialEq, Eq, Structural)]
pub enum MemoryOrder {
    Relaxed,
    Acquire,
    Release,
}

/// One step of the code that an entry function runs.
#[derive(Clone, Debug, PartialEq, Eq)]
pub enum Instruction {
    /// In a synchronized closure, swap the closure's entry from the initial
    /// entry to the locked one, with ordering `success` when the swap succeeds
    /// and `failure` when it fails; when it fails, load the entry that the
    /// closure holds with ordering `forward`, call it with this entry's own
    /// arguments and return its result.  In other closures, do nothing.
    LockOrForward { success: MemoryOrder, failure: MemoryOrder, forward: MemoryOrder },
    /// Call the yield function of the runtime.
    Yield,
    /// Load the entry that the closure holds with the ordering, call it with
    /// this entry's own arguments and return its result.
    ForwardToCurrentEntry(MemoryOrder),
    /// In a synchronized closure, load the closure's entry with the ordering
    /// (so that the value stored before the entry was published is seen).  In
    /// other closures, do nothing.
    LoadEntry(MemoryOrder),
    /// Take a new reference to the closure.
    RetainClosure,
    /// Evaluate the body in its scope.
    EvaluateBody,
    /// Drop the value in the slot.
    Release(Slot),
    /// Store a new reference to the body's value in the slot.
    StoreValue(Slot),
    /// Take a new reference to the value in the slot as the result.
    LoadValue(Slot),
    /// Give the closure metadata whose drop function releases the slot.
    SetDropFunction(Slot),
    /// Give the closure the normal entry: an atomic store with the ordering in
    /// a synchronized closure, a plain store in other closures.
    PublishNormalEntry(MemoryOrder),
    /// Drop the reference to the closure.
    ReleaseClosure,
    /// Return the result.
    Return,
}

pub ghost enum SpecInstruction {
    LockOrForward { success: MemoryOrder, failure: MemoryOrder, forward: MemoryOrder },
    Yield,
    ForwardToCurrentEntry(MemoryOrder),
    LoadEntry(MemoryOrder),
    RetainClosure,
    EvaluateBody,
    Release((Address, SpecType)),
    StoreValue((Address, SpecType)),
    LoadValue((Address, SpecType)),
    SetDropFunction((Address, SpecType)),
    PublishNormalEntry(MemoryOrder),
    ReleaseClosure,
    Return,
}

impl View for Instruction {
    type V = SpecInstruction;

    open spec fn view(&self) -> SpecInstruction {
        match self {
            Instruction::LockOrForward { success, failure, forward } => SpecInstruction::LockOrForward {
                success: *success,
                failure: *failure,
                forward: *forward,
            },
            Instruction::Yield => SpecInstruction::Yield,
            Instruction::ForwardToCurrentEntry(o) => SpecInstruction::ForwardToCurrentEntry(*o),
            Instruction::LoadEntry(o) => SpecInstruction::LoadEntry(*o),
            Instruction::RetainClosure => SpecInstruction::RetainClosure,
            Instruction::EvaluateBody => SpecInstruction::EvaluateBody,
            Instruction::Release(s) => SpecInstruction::Release(s@),
            Instruction::StoreValue(s) => SpecInstruction::StoreValue(s@),
            Instruction::LoadValue(s) => SpecInstruction::LoadValue(s@),
            Instruction::SetDropFunction(s) => SpecInstruction::SetDropFunction(s@),
            Instruction::PublishNormalEntry(o) => SpecInstruction::PublishNormalEntry(*o),
            Instruction::ReleaseClosure => SpecInstruction::ReleaseClosure,
            Instruction::Return => SpecInstruction::Return,
        }
    }
}

/// The lock of the initial entry: a swap with acquire ordering when it
/// succeeds (the winner sees all that came before) and relaxed ordering when
/// it fails, and a relaxed load of the entry to go on to.
pub open spec fn lock_or_forward() -> SpecInstruction {
    SpecInstruction::LockOrForward {
        success: MemoryOrder::Acquire,
        failure: MemoryOrder::Relaxed,
        forward: MemoryOrder::Relaxed,
    }
}

pub open spec fn instructions_view(instructions: Seq<Instruction>) -> Seq<SpecInstruction> {
    instructions.map_values(|i: Instruction| i@)
}

/// The code of the entry of an ordinary function: evaluate the body and
/// return its value.
pub open spec fn function_entry_code() -> Seq<SpecInstruction> {
    seq![SpecInstruction::EvaluateBody, SpecInstruction::Return]
}

/// The code of the initial entry of a thunk: lock (or go on to the entry
/// that another caller installed), keep the closure alive, evaluate the body,
/// release the free variables, store the value where the free variables were,
/// install the drop function of an evaluated thunk, publish the normal entry,
/// let the closure go and return the value.
pub open spec fn initial_entry_code<B>(d: SpecDefinition<B>) -> Seq<SpecInstruction> {
    seq![lock_or_forward(), SpecInstruction::RetainClosure, SpecInstruction::EvaluateBody]
        + environment_slots(d).map_values(|s: (Address, SpecType)| SpecInstruction::Release(s))
        + initial_entry_epilogue(d)
}

/// The code of the normal entry of a thunk: see the published entry, take a
/// new reference to the stored value, let the closure go and return it.
pub open spec fn normal_entry_code<B>(d: SpecDefinition<B>) -> Seq<SpecInstruction> {
    seq![
        SpecInstruction::LoadEntry(MemoryOrder::Acquire),
        SpecInstruction::LoadValue((thunk_value_address(), d.result_type)),
        SpecInstruction::ReleaseClosure,
        SpecInstruction::Return,
    ]
}

/// The code of the locked entry of a thunk: yield, then go on to the entry
/// that the closure holds by then.
pub open spec fn locked_entry_code() -> Seq<SpecInstruction> {
    seq![SpecInstruction::Yield, SpecInstruction::ForwardToCurrentEntry(MemoryOrder::Relaxed)]
}

/// What an entry's code does to the state of the thunk when a caller runs it
/// with `value` as the body's value: a lost swap and a forward end the code
/// there (the call goes on in another entry); publishing the normal entry is
/// the caller's store.
pub open spec fn run_code<V>(s: SpecThunk<V>, code: Seq<SpecInstruction>, value: V) -> SpecThunk<V>
    decreases code.len(),
{
    if code.len() == 0 {
        s
    } else {
        match code[0] {
            SpecInstruction::LockOrForward { .. } => {
                let (t, step) = run_initial(s);
                if step == InitialStep::Evaluate {
                    run_code(t, code.drop_first(), value)
                } else {
                    t
                }
            },
            SpecInstruction::PublishNormalEntry(_) => run_code(run_finish(s, value), code.drop_first(), value),
            SpecInstruction::ForwardToCurrentEntry(_) => s,
            _ => run_code(s, code.drop_first(), value),
        }
    }
}

/// Whether an instruction leaves the state of the thunk as it is.
pub open spec fn inert(i: SpecInstruction) -> bool {
    !(i is LockOrForward) && !(i is PublishNormalEntry) && !(i is ForwardToCurrentEntry)
}

proof fn lemma_run_inert_prefix<V>(s: SpecThunk<V>, a: Seq<SpecInstruction>, b: Seq<SpecInstruction>, value: V)
    requires
        forall|i: int| 0 <= i < a.len() ==> inert(#[trigger] a[i]),
    ensures
        run_code(s, a + b, value) == run_code(s, b, value),
    decreases a.len(),
{
    if a.len() > 0 {
        assert((a + b).drop_first() =~= a.drop_first() + b);
        assert((a + b)[0] == a[0]);
        assert forall|i: int| 0 <= i < a.drop_first().len() implies inert(#[trigger] a.drop_first()[i]) by {
            assert(a.drop_first()[i] == a[i + 1]);
        }
        lemma_run_inert_prefix(s, a.drop_first(), b, value);
    }
}

/// The last instructions of the initial entry's code.
pub open spec fn initial_entry_epilogue<B>(d: SpecDefinition<B>) -> Seq<SpecInstruction> {
    seq![
        SpecInstruction::StoreValue((thunk_value_address(), d.result_type)),
        SpecInstruction::SetDropFunction(normal_thunk_drop_slot(d)),
        SpecInstruction::PublishNormalEntry(MemoryOrder::Release),
        SpecInstruction::ReleaseClosure,
        SpecInstruction::Return,
    ]
}

proof fn lemma_run_epilogue<B, V>(d: SpecDefinition<B>, t: SpecThunk<V>, value: V)
    ensures
        run_code(t, initial_entry_epilogue(d), value) == run_finish(t, value),
{
    reveal_with_fuel(run_code, 6);
    let e = initial_entry_epilogue(d);
    assert(e.drop_first().drop_first().drop_first().drop_first().drop_first() =~= Seq::<SpecInstruction>::empty());
}

/// The initial entry's code runs the thunk protocol: run on a fresh thunk, it
/// evaluates the body, stores the value and publishes the normal entry; run on
/// a synchronized thunk that has left its initial entry, it changes nothing
/// and the call goes on to the entry installed at that moment.
pub proof fn law_initial_entry_runs_the_protocol<B, V>(d: SpecDefinition<B>, s: SpecThunk<V>, value: V)
    ensures
        s == fresh::<V>(s.synchronized) ==> run_code(s, initial_entry_code(d), value) == (SpecThunk {
            entry: Entry::Normal,
            value: Some(value),
            synchronized: s.synchronized,
            evaluators: 0,
        }),
        s.synchronized && s.entry != Entry::Initial ==> run_code(s, initial_entry_code(d), value) == s,
{
    let code = initial_entry_code(d);
    let releases = environment_slots(d).map_values(|x: (Address, SpecType)| SpecInstruction::Release(x));
    let tail = initial_entry_epilogue(d);
    let head = seq![SpecInstruction::RetainClosure, SpecInstruction::EvaluateBody];
    assert(code.drop_first() =~= head + (releases + tail));
    assert forall|i: int| 0 <= i < head.len() implies inert(#[trigger] head[i]) by {}
    assert forall|i: int| 0 <= i < releases.len() implies inert(#[trigger] releases[i]) by {}
    let t = run_initial(s).0;
    lemma_run_inert_prefix(t, head, releases + tail, value);
    lemma_run_inert_prefix(t, releases, tail, value);
    lemma_run_epilogue(d, t, value);
    assert(code[0] == lock_or_forward());
    assert(run_code(s, code, value) == if run_initial(s).1 == InitialStep::Evaluate {
        run_code(t, code.drop_first(), value)
    } else {
        t
    });
}

/// The locked entry's code and the normal entry's code change nothing in the
/// thunk: the locked entry goes on to the entry the closure holds, the normal
/// entry reads the stored value.
pub proof fn law_other_entries_change_nothing<B, V>(d: SpecDefinition<B>, s: SpecThunk<V>, value: V)
    ensures
        run_code(s, locked_entry_code(), value) == s,
        run_code(s, normal_entry_code(d), value) == s,
{
    reveal_with_fuel(run_code, 5);
    let n = normal_entry_code(d);
    assert(n.drop_first().drop_first().drop_first().drop_first() =~= Seq::<SpecInstruction>::empty());
    assert(locked_entry_code()[1] == SpecInstruction::ForwardToCurrentEntry(MemoryOrder::Relaxed));
    assert(locked_entry_code().drop_first()[0] == SpecInstruction::ForwardToCurrentEntry(MemoryOrder::Relaxed));
}

/// In the initial entry's code the body is evaluated once, right after the
/// lock; every free variable is released before the value is stored (the value
/// takes the place where the free variables were) and the value is stored, and
/// its drop function installed, before the normal entry is published.
pub proof fn law_initial_entry_order<B>(d: SpecDefinition<B>)
    requires
        d.is_thunk,
    ensures
        initial_entry_code(d)[0] == lock_or_forward(),
        initial_entry_code(d)[2] == SpecInstruction::EvaluateBody,
        forall|i: int| 0 <= i < initial_entry_code(d).len() && i != 2 ==> !(#[trigger] initial_entry_code(d)[i] is EvaluateBody),
        forall|i: int, k: int|
            0 <= i < initial_entry_code(d).len() && 0 <= k < initial_entry_code(d).len()
                && #[trigger] initial_entry_code(d)[i] is Release && #[trigger] initial_entry_code(d)[k] is StoreValue
                ==> i < k,
        forall|k: int, p: int|
            0 <= k < initial_entry_code(d).len() && 0 <= p < initial_entry_code(d).len()
                && #[trigger] initial_entry_code(d)[k] is StoreValue && #[trigger] initial_entry_code(d)[p] is PublishNormalEntry
                ==> k < p,
        forall|k: int, p: int|
            0 <= k < initial_entry_code(d).len() && 0 <= p < initial_entry_code(d).len()
                && #[trigger] initial_entry_code(d)[k] is SetDropFunction && #[trigger] initial_entry_code(d)[p] is PublishNormalEntry
                ==> k < p,
        place(thunk_value_address()) == place(environment_address(d.is_thunk)),
{
    let code = initial_entry_code(d);
    let n: int = environment_slots(d).len() as int;
    let releases = environment_slots(d).map_values(|x: (Address, SpecType)| SpecInstruction::Release(x));
    assert(code.len() == n + 8);
    assert forall|i: int| 3 <= i < 3 + n implies #[trigger] code[i] == releases[i - 3] by {}
    assert(code[3 + n] is StoreValue);
    assert(code[4 + n] is SetDropFunction);
    assert(code[5 + n] is PublishNormalEntry);
    assert(code[6 + n] is ReleaseClosure);
    assert(code[7 + n] is Return);
}

/// An access to the entry that a closure holds.
pub ghost enum EntryAccess {
    /// An atomic compare-and-swap, with the ordering used when it succeeds
    /// and the one used when it fails.
    CompareAndSwap { success: MemoryOrder, failure: MemoryOrder },
    AtomicLoad(MemoryOrder),
    AtomicStore(MemoryOrder),
    /// A store that is not atomic.
    PlainStore,
}

/// The accesses to the closure's entry that an instruction makes, in a
/// synchronized closure or in another one.  (The load that follows a failed
/// swap happens only when the swap fails.)
pub open spec fn entry_accesses(i: SpecInstruction, synchronized: bool) -> Seq<EntryAccess> {
    match i {
        SpecInstruction::LockOrForward { success, failure, forward } => if synchronized {
            seq![EntryAccess::CompareAndSwap { success, failure }, EntryAccess::AtomicLoad(forward)]
        } else {
            Seq::empty()
        },
        SpecInstruction::ForwardToCurrentEntry(o) => seq![EntryAccess::AtomicLoad(o)],
        SpecInstruction::LoadEntry(o) => if synchronized {
            seq![EntryAccess::AtomicLoad(o)]
        } else {
            Seq::empty()
        },
        SpecInstruction::PublishNormalEntry(o) => if synchronized {
            seq![EntryAccess::AtomicStore(o)]
        } else {
            seq![EntryAccess::PlainStore]
        },
        _ => Seq::empty(),
    }
}

/// The accesses to the closure's entry that a piece of code makes, in order.
pub open spec fn code_accesses(code: Seq<SpecInstruction>, synchronized: bool) -> Seq<EntryAccess>
    decreases code.len(),
{
    if code.len() == 0 {
        Seq::empty()
    } else {
        entry_accesses(code[0], synchronized) + code_accesses(code.drop_first(), synchronized)
    }
}

proof fn lemma_code_accesses_append(a: Seq<SpecInstruction>, b: Seq<SpecInstruction>, synchronized: bool)
    ensures
        code_accesses(a + b, synchronized) == code_accesses(a, synchronized) + code_accesses(b, synchronized),
    decreases a.len(),
{
    if a.len() == 0 {
        assert(a + b =~= b);
        assert(code_accesses(a, synchronized) + code_accesses(b, synchronized) =~= code_accesses(b, synchronized));
    } else {
        assert((a + b).drop_first() =~= a.drop_first() + b);
        assert((a + b)[0] == a[0]);
        lemma_code_accesses_append(a.drop_first(), b, synchronized);
        assert(code_accesses(a + b, synchronized) =~= code_accesses(a, synchronized) + code_accesses(b, synchronized));
    }
}

proof fn lemma_releases_access_nothing(r: Seq<SpecInstruction>, synchronized: bool)
    requires
        forall|i: int| 0 <= i < r.len() ==> #[trigger] r[i] is Release,
    ensures
        code_accesses(r, synchronized) == Seq::<EntryAccess>::empty(),
    decreases r.len(),
{
    if r.len() > 0 {
        assert forall|i: int| 0 <= i < r.drop_first().len() implies #[trigger] r.drop_first()[i] is Release by {
            assert(r.drop_first()[i] == r[i + 1]);
        }
        lemma_releases_access_nothing(r.drop_first(), synchronized);
        assert(r[0] is Release);
        assert(code_accesses(r, synchronized) =~= Seq::<EntryAccess>::empty());
    }
}

/// The initial entry of a thunk evaluates the body, releases every free
/// variable once (field `j` of the environment record, which is the first
/// member of the payload union, with the type of free variable `j`), and
/// stores the value in the second member of the payload union, with the
/// result type; the drop function it installs releases that same slot, and
/// the normal entry loads the value from that same slot.
pub proof fn law_thunk_value_is_stored_where_it_is_loaded<B>(d: SpecDefinition<B>)
    requires
        d.is_thunk,
    ensures
        initial_entry_code(d).len() == d.environment.len() + 8,
        initial_entry_code(d)[2] == SpecInstruction::EvaluateBody,
        forall|j: int|
            0 <= j < d.environment.len() ==> #[trigger] initial_entry_code(d)[3 + j] == SpecInstruction::Release(
                (
                    Address::RecordField(Box::new(Address::UnionMember(Box::new(Address::Payload), 0)), j as usize),
                    d.environment[j].1,
                ),
            ),
        initial_entry_code(d)[3 + d.environment.len() as int] == SpecInstruction::StoreValue(
            (Address::UnionMember(Box::new(Address::Payload), 1), d.result_type),
        ),
        initial_entry_code(d)[4 + d.environment.len() as int] == SpecInstruction::SetDropFunction(
            (Address::UnionMember(Box::new(Address::Payload), 1), d.result_type),
        ),
        normal_entry_code(d)[1] == SpecInstruction::LoadValue(
            (Address::UnionMember(Box::new(Address::Payload), 1), d.result_type),
        ),
        forall|i: int, k: int|
            0 <= i < initial_entry_code(d).len() && 0 <= k < normal_entry_code(d).len() && (
            #[trigger] initial_entry_code(d)[i]) is StoreValue && (#[trigger] normal_entry_code(d)[k]) is LoadValue
                ==> initial_entry_code(d)[i]->StoreValue_0 == normal_entry_code(d)[k]->LoadValue_0,
{
    let code = initial_entry_code(d);
    let n = d.environment.len() as int;
    law_environment_slots_cover_every_free_variable(d);
    let releases = environment_slots(d).map_values(|x: (Address, SpecType)| SpecInstruction::Release(x));
    assert forall|j: int| 0 <= j < n implies #[trigger] code[3 + j] == releases[j] by {}
    assert forall|i: int| 0 <= i < code.len() && #[trigger] code[i] is StoreValue implies i == 3 + n by {
        if 3 <= i < 3 + n {
            assert(code[i] == releases[i - 3]);
        }
    }
}

/// How the entries of a thunk touch the closure's entry.  In a synchronized
/// closure, the initial entry swaps with acquire ordering (relaxed when the
/// swap fails and the call goes on through a relaxed load), and publishes the
/// normal entry with a release store, after storing the value; the normal
/// entry loads the entry with acquire ordering before it loads the value, so
/// it sees the stored value; the locked entry only forwards through a relaxed
/// load.  In a closure that is not synchronized, the initial entry publishes
/// with a plain store and the normal entry makes no access.
pub proof fn law_entry_accesses<B>(d: SpecDefinition<B>)
    ensures
        code_accesses(initial_entry_code(d), true) == seq![
            EntryAccess::CompareAndSwap { success: MemoryOrder::Acquire, failure: MemoryOrder::Relaxed },
            EntryAccess::AtomicLoad(MemoryOrder::Relaxed),
            EntryAccess::AtomicStore(MemoryOrder::Release),
        ],
        code_accesses(initial_entry_code(d), false) == seq![EntryAccess::PlainStore],
        code_accesses(normal_entry_code(d), true) == seq![EntryAccess::AtomicLoad(MemoryOrder::Acquire)],
        code_accesses(normal_entry_code(d), false) == Seq::<EntryAccess>::empty(),
        code_accesses(locked_entry_code(), true) == seq![EntryAccess::AtomicLoad(MemoryOrder::Relaxed)],
        code_accesses(locked_entry_code(), false) == seq![EntryAccess::AtomicLoad(MemoryOrder::Relaxed)],
        normal_entry_code(d)[0] is LoadEntry && normal_entry_code(d)[1] is LoadValue,
{
    reveal_with_fuel(code_accesses, 6);
    let releases = environment_slots(d).map_values(|x: (Address, SpecType)| SpecInstruction::Release(x));
    let head = seq![lock_or_forward(), SpecInstruction::RetainClosure, SpecInstruction::EvaluateBody];
    let tail = initial_entry_epilogue(d);
    assert(initial_entry_code(d) == head + releases + tail);
    assert forall|synchronized: bool| true implies code_accesses(initial_entry_code(d), synchronized)
        == code_accesses(head, synchronized) + code_accesses(tail, synchronized) by {
        lemma_code_accesses_append(head + releases, tail, synchronized);
        lemma_code_accesses_append(head, releases, synchronized);
        lemma_releases_access_nothing(releases, synchronized);
        assert(code_accesses(head, synchronized) + Seq::<EntryAccess>::empty() =~= code_accesses(head, synchronized));
    }
    assert(code_accesses(head, true) =~= seq![
        EntryAccess::CompareAndSwap { success: MemoryOrder::Acquire, failure: MemoryOrder::Relaxed },
        EntryAccess::AtomicLoad(MemoryOrder::Relaxed),
    ]);
    assert(code_accesses(tail, true) =~= seq![EntryAccess::AtomicStore(MemoryOrder::Release)]);
    assert(code_accesses(head, false) =~= Seq::<EntryAccess>::empty());
    assert(code_accesses(tail, false) =~= seq![EntryAccess::PlainStore]);
    assert(code_accesses(initial_entry_code(d), true) =~= seq![
        EntryAccess::CompareAndSwap { success: MemoryOrder::Acquire, failure: MemoryOrder::Relaxed },
        EntryAccess::AtomicLoad(MemoryOrder::Relaxed),
        EntryAccess::AtomicStore(MemoryOrder::Release),
    ]);
    assert(code_accesses(initial_entry_code(d), false) =~= seq![EntryAccess::PlainStore]);
    assert(code_accesses(normal_entry_code(d), true) =~= seq![EntryAccess::AtomicLoad(MemoryOrder::Acquire)]);
    assert(code_accesses(normal_entry_code(d), false) =~= Seq::<EntryAccess>::empty());
    assert(code_accesses(locked_entry_code(), true) =~= seq![EntryAccess::AtomicLoad(MemoryOrder::Relaxed)]);
    assert(code_accesses(locked_entry_code(), false) =~= seq![EntryAccess::AtomicLoad(MemoryOrder::Relaxed)]);
}

/// A compiled entry function: the options with which it is defined, its
/// arguments and result type, the scope in which it compiles the body (for an
/// entry that evaluates the body), and its code.
#[derive(Debug)]
pub struct CompiledEntry {
    pub options: DefinitionOptions,
    pub arguments: Vec<EntryArgument>,
    pub result: Type,
    pub scope: Option<Scope>,
    pub code: Vec<Instruction>,
}

/// Whether an entry function of `d` is defined as every entry function of
/// `d` is: with the entry options, the closure and the definition's arguments,
/// and the definition's result type.
pub open spec fn has_entry_signature<B>(e: CompiledEntry, d: SpecDefinition<B>) -> bool {
    &&& e.options == entry_options()
    &&& entry_arguments_view(e.arguments@) == entry_arguments(d)
    &&& e.result@ == d.result_type
}

/// The code of the entry of an ordinary function.
fn compile_function_entry() -> (r: Vec<Instruction>)
    ensures
        instructions_view(r@) == function_entry_code(),
{
    let r = vec![Instruction::EvaluateBody, Instruction::Return];
    assert(instructions_view(r@) =~= function_entry_code());
    r
}

fn compile_initial_thunk_entry_code<B>(definition: &Definition<B>) -> (r: Vec<Instruction>)
    ensures
        instructions_view(r@) == initial_entry_code(definition@),
{
    let ghost d = definition@;
    let ghost releases = environment_slots(d).map_values(|s: (Address, SpecType)| SpecInstruction::Release(s));
    let mut r: Vec<Instruction> = vec![
        Instruction::LockOrForward {
            success: MemoryOrder::Acquire,
            failure: MemoryOrder::Relaxed,
            forward: MemoryOrder::Relaxed,
        },
        Instruction::RetainClosure,
        Instruction::EvaluateBody,
    ];
    let slots = environment_slots_of(definition);
    let n = slots.len();
    let mut j: usize = 0;
    assert(instructions_view(r@) =~= seq![lock_or_forward(), SpecInstruction::RetainClosure, SpecInstruction::EvaluateBody] + releases.take(0));
    while j < n
        invariant
            n == slots@.len(),
            slots_view(slots@) == environment_slots(d),
            releases == environment_slots(d).map_values(|s: (Address, SpecType)| SpecInstruction::Release(s)),
            j <= n,
            instructions_view(r@) == seq![lock_or_forward(), SpecInstruction::RetainClosure, SpecInstruction::EvaluateBody] + releases.take(j as int),
        decreases n - j,
    {
        let ghost before = r@;
        r.push(Instruction::Release(slots[j].clone_slot()));
        assert(instructions_view(r@) =~= instructions_view(before).push(r@[r@.len() - 1]@));
        assert(releases.take(j + 1) =~= releases.take(j as int).push(releases[j as int]));
        j = j + 1;
    }
    assert(releases.take(n as int) =~= releases);
    let value = Slot { address: thunk_value_pointer(definition), type_: definition.result_type().duplicate() };
    let installed = Slot { address: thunk_value_pointer(definition), type_: definition.result_type().duplicate() };
    let ghost before = r@;
    r.push(Instruction::StoreValue(value));
    r.push(Instruction::SetDropFunction(installed));
    r.push(Instruction::PublishNormalEntry(MemoryOrder::Release));
    r.push(Instruction::ReleaseClosure);
    r.push(Instruction::Return);
    assert(instructions_view(r@) =~= instructions_view(before) + initial_entry_epilogue(d));
    assert(instructions_view(r@) =~= initial_entry_code(d));
    r
}

/// The initial entry of the thunk of `definition`: it evaluates the body in
/// the scope that an ordinary function's entry gets for the same `global` and
/// `variables`.
pub fn compile_initial_thunk_entry<B>(
    definition: &Definition<B>,
    global: bool,
    variables: &[String],
) -> (r: CompiledEntry)
    ensures
        has_entry_signature(r, definition@),
        r.scope matches Some(scope) && scope@ == body_scope(names_of(variables@), definition@, global),
        instructions_view(r.code@) == initial_entry_code(definition@),
        definition@.is_thunk ==> r.code@.len() == definition@.environment.len() + 8
            && r.code@[3 + definition@.environment.len() as int]@ == SpecInstruction::StoreValue(
            (Address::UnionMember(Box::new(Address::Payload), 1), definition@.result_type),
        ),
{
    proof {
        if definition@.is_thunk {
            law_thunk_value_is_stored_where_it_is_loaded(definition@);
        }
    }
    CompiledEntry {
        options: entry_function_definition_options(),
        arguments: compile_arguments(definition),
        result: definition.result_type().duplicate(),
        scope: Some(body_scope_of(variables, definition, global)),
        code: compile_initial_thunk_entry_code(definition),
    }
}

/// The normal entry of the thunk of `definition`: it returns a new reference
/// to the stored value and never evaluates the body.
pub fn compile_normal_thunk_entry<B>(definition: &Definition<B>) -> (r: CompiledEntry)
    ensures
        has_entry_signature(r, definition@),
        r.scope is None,
        instructions_view(r.code@) == normal_entry_code(definition@),
        r.code@.len() == 4,
        r.code@[1]@ == SpecInstruction::LoadValue(
            (Address::UnionMember(Box::new(Address::Payload), 1), definition@.result_type),
        ),
{
    let value = Slot { address: thunk_value_pointer(definition), type_: definition.result_type().duplicate() };
    let code = vec![
        Instruction::LoadEntry(MemoryOrder::Acquire),
        Instruction::LoadValue(value),
        Instruction::ReleaseClosure,
        Instruction::Return,
    ];
    assert(instructions_view(code@) =~= normal_entry_code(definition@));
    CompiledEntry {
        options: entry_function_definition_options(),
        arguments: compile_arguments(definition),
        result: definition.result_type().duplicate(),
        scope: None,
        code,
    }
}

/// The locked entry of the thunk of `definition`: it takes the same
/// arguments as the thunk's other entries, yields, and passes them all on to
/// the entry that the closure holds by then.
pub fn compile_locked_thunk_entry<B>(definition: &Definition<B>) -> (r: CompiledEntry)
    ensures
        has_entry_signature(r, definition@),
        r.scope is None,
        instructions_view(r.code@) == locked_entry_code(),
{
    let code = vec![Instruction::Yield, Instruction::ForwardToCurrentEntry(MemoryOrder::Relaxed)];
    assert(instructions_view(code@) =~= locked_entry_code());
    CompiledEntry {
        options: entry_function_definition_options(),
        arguments: compile_arguments(definition),
        result: definition.result_type().duplicate(),
        scope: None,
        code,
    }
}

/// What the entry functions of a thunk have beyond those of an ordinary
/// function.
#[derive(Debug)]
pub struct ThunkEntry {
    /// The free variables that the initial entry releases once it has
    /// evaluated the body: the thunk keeps only its value from then on.
    pub releases: Vec<Slot>,
    /// Where the initial entry stores the value and where the normal entry
    /// loads it from.
    pub value: Slot,
    /// The drop function that the initial entry installs with the value.
    pub normal_drop: DropFunction,
    /// The normal entry.
    pub normal_entry: CompiledEntry,
    /// The locked entry.
    pub locked_entry: CompiledEntry,
}

/// The compiled entry function of a definition.
#[derive(Debug)]
pub struct EntryFunction {
    /// The options with which each entry function is defined.
    pub options: DefinitionOptions,
    /// The arguments of the entry function (of each of them, for a thunk).
    pub arguments: Vec<EntryArgument>,
    /// The result type of the entry function (of each of them, for a thunk).
    pub result: Type,
    /// The scope in which the body is compiled.
    pub scope: Scope,
    /// The code of the entry function (of the initial entry, for a thunk).
    pub code: Vec<Instruction>,
    /// For a thunk, what its entries have beyond an ordinary function's.
    pub thunk: Option<ThunkEntry>,
}

/// Compiles the entry function of `definition`: a thunk gets an initial entry
/// that evaluates the body once, releases the free variables and stores the
/// value, a normal entry that returns the value and a locked entry that
/// waits; an ordinary function gets one entry that evaluates the body on each
/// call.  Every entry takes the closure and the definition's arguments and
/// returns the definition's result type.  `variables` are the names that the
/// caller binds; a global definition does not hide the one of its own name.
pub fn compile<B>(definition: &Definition<B>, global: bool, variables: &[String]) -> (r: EntryFunction)
    ensures
        entry_arguments_view(r.arguments@) == entry_arguments(definition@),
        r.result@ == definition@.result_type,
        r.scope@ == body_scope(names_of(variables@), definition@, global),
        r.options == entry_options(),
        r.thunk is Some <==> definition@.is_thunk,
        !definition@.is_thunk ==> instructions_view(r.code@) == function_entry_code(),
        r.thunk matches Some(t) ==> {
            &&& instructions_view(r.code@) == initial_entry_code(definition@)
            &&& slots_view(t.releases@) == environment_slots(definition@)
            &&& t.value@ == (thunk_value_address(), definition@.result_type)
            &&& t.normal_drop@ == (drop_function_argument(), seq![normal_thunk_drop_slot(definition@)])
            &&& has_entry_signature(t.normal_entry, definition@)
            &&& t.normal_entry.scope is None
            &&& instructions_view(t.normal_entry.code@) == normal_entry_code(definition@)
            &&& has_entry_signature(t.locked_entry, definition@)
            &&& t.locked_entry.scope is None
            &&& instructions_view(t.locked_entry.code@) == locked_entry_code()
        },
{
    if definition.is_thunk() {
        compile_thunk(definition, global, variables)
    } else {
        compile_non_thunk(definition, global, variables)
    }
}

fn compile_non_thunk<B>(definition: &Definition<B>, global: bool, variables: &[String]) -> (r: EntryFunction)
    ensures
        entry_arguments_view(r.arguments@) == entry_arguments(definition@),
        r.result@ == definition@.result_type,
        r.scope@ == body_scope(names_of(variables@), definition@, global),
        r.options == entry_options(),
        instructions_view(r.code@) == function_entry_code(),
        r.thunk is None,
{
    EntryFunction {
        options: entry_function_definition_options(),
        arguments: compile_arguments(definition),
        result: definition.result_type().duplicate(),
        scope: body_scope_of(variables, definition, global),
        code: compile_function_entry(),
        thunk: None,
    }
}

fn compile_thunk<B>(definition: &Definition<B>, global: bool, variables: &[String]) -> (r: EntryFunction)
    requires
        definition@.is_thunk,
    ensures
        entry_arguments_view(r.arguments@) == entry_arguments(definition@),
        r.result@ == definition@.result_type,
        r.scope@ == body_scope(names_of(variables@), definition@, global),
        r.options == entry_options(),
        instructions_view(r.code@) == initial_entry_code(definition@),
        r.thunk matches Some(t) && slots_view(t.releases@) == environment_slots(definition@)
            && t.value@ == (thunk_value_address(), definition@.result_type)
            && t.normal_drop@ == (drop_function_argument(), seq![normal_thunk_drop_slot(definition@)])
            && has_entry_signature(t.normal_entry, definition@)
            && t.normal_entry.scope is None
            && instructions_view(t.normal_entry.code@) == normal_entry_code(definition@)
            && has_entry_signature(t.locked_entry, definition@)
            && t.locked_entry.scope is None
            && instructions_view(t.locked_entry.code@) == locked_entry_code(),
{
    let initial = compile_initial_thunk_entry(definition, global, variables);
    let value = Slot {
        address: thunk_value_pointer(definition),
        type_: definition.result_type().duplicate(),
    };
    let thunk = ThunkEntry {
        releases: environment_slots_of(definition),
        value,
        normal_drop: closure::drop::compile_normal_thunk(definition),
        normal_entry: compile_normal_thunk_entry(definition),
        locked_entry: compile_locked_thunk_entry(definition),
    };
    match initial.scope {
        Some(scope) => EntryFunction {
            options: initial.options,
            arguments: initial.arguments,
            result: initial.result,
            scope,
            code: initial.code,
            thunk: Some(thunk),
        },
        None => vstd::pervasive::unreached(),
    }
}

} // verus!
