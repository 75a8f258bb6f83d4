use vstd::prelude::*;

use crate::mir::definition::{arguments_view, Definition, SpecDefinition};
use crate::mir::types::SpecType;
use crate::mir_fmm::entry_function::{
    environment_slots, initial_entry_code, slots_view, thunk_value_address, EntryArgument, EntryArgumentType,
    SpecEntryArgumentType, SpecInstruction, CLOSURE_NAME,
};
use crate::mir_fmm::layout::{place, Address, Slot};

verus! {

/// The slots that the drop function of a closure releases: each field of
/// the payload, seen as the record of the free variables.
pub open spec fn closure_drop_slots<B>(d: SpecDefinition<B>) -> Seq<(Address, SpecType)> {
    Seq::new(
        d.environment.len(),
        |j: int| (Address::RecordField(Box::new(Address::Payload), j as usize), d.environment[j].1),
    )
}

/// The slot that the drop function of an evaluated thunk releases: its value.
pub open spec fn normal_thunk_drop_slot<B>(d: SpecDefinition<B>) -> (Address, SpecType) {
    (thunk_value_address(), d.result_type)
}

/// The argument of every drop function: the closure, as an integer of the
/// size of a pointer.
pub open spec fn drop_function_argument() -> (Seq<char>, SpecEntryArgumentType) {
    (CLOSURE_NAME@, SpecEntryArgumentType::PointerInteger)
}

/// A drop function of a closure: it takes the closure, returns nothing, and
/// releases the values in its slots, in order.
#[derive(Clone, Debug, PartialEq, Eq)]
pub struct DropFunction {
    pub argument: EntryArgument,
    pub releases: Vec<Slot>,
}

impl View for DropFunction {
    type V = ((Seq<char>, SpecEntryArgumentType), Seq<(Address, SpecType)>);

    open spec fn view(&self) -> ((Seq<char>, SpecEntryArgumentType), Seq<(Address, SpecType)>) {
        (self.argument@, slots_view(self.releases@))
    }
}

/// The drop function that releases `releases`, in order.
pub fn compile_with_builder(releases: Vec<Slot>) -> (r: DropFunction)
    ensures
        r@ == (drop_function_argument(), slots_view(releases@)),
        r.argument@ == (CLOSURE_NAME@, SpecEntryArgumentType::PointerInteger),
        r.releases@ == releases@,
{
    DropFunction {
        argument: EntryArgument { name: CLOSURE_NAME.to_owned(), type_: EntryArgumentType::PointerInteger },
        releases,
    }
}

/// The drop function of the closure of `definition`: it releases the free
/// variables, in order.
pub fn compile<B>(definition: &Definition<B>) -> (r: DropFunction)
    ensures
        r@ == (drop_function_argument(), closure_drop_slots(definition@)),
        r.argument@ == (CLOSURE_NAME@, SpecEntryArgumentType::PointerInteger),
        r.releases@.len() == definition@.environment.len(),
        forall|j: int|
            0 <= j < definition@.environment.len() ==> #[trigger] r.releases@[j]@ == (
                Address::RecordField(Box::new(Address::Payload), j as usize),
                definition@.environment[j].1,
            ),
{
    proof {
        law_closure_drop_releases_every_free_variable(definition@);
    }
    compile_with_builder(closure_drop_slots_of(definition))
}

fn closure_drop_slots_of<B>(definition: &Definition<B>) -> (r: Vec<Slot>)
    ensures
        slots_view(r@) == closure_drop_slots(definition@),
        r@.len() == definition@.environment.len(),
        forall|j: int|
            0 <= j < definition@.environment.len() ==> #[trigger] r@[j]@ == (
                Address::RecordField(Box::new(Address::Payload), j as usize),
                definition@.environment[j].1,
            ),
{
    proof {
        law_closure_drop_releases_every_free_variable(definition@);
    }
    let mut r: Vec<Slot> = Vec::new();
    let environment = definition.environment();
    let n = environment.len();
    let mut j: usize = 0;
    while j < n
        invariant
            n == environment@.len(),
            arguments_view(environment@) == definition@.environment,
            j <= n,
            slots_view(r@) == closure_drop_slots(definition@).take(j as int),
        decreases n - j,
    {
        let ghost before = r@;
        r.push(
            Slot {
                address: Address::RecordField(Box::new(Address::Payload), j),
                type_: environment[j].type_().duplicate(),
            },
        );
        assert(slots_view(r@) =~= slots_view(before).push(r@[j as int]@));
        assert(closure_drop_slots(definition@).take(j + 1) =~= closure_drop_slots(definition@).take(
            j as int,
        ).push(closure_drop_slots(definition@)[j as int]));
        j = j + 1;
    }
    assert(closure_drop_slots(definition@).take(n as int) =~= closure_drop_slots(definition@));
    assert forall|j: int| 0 <= j < definition@.environment.len() implies #[trigger] r@[j]@
        == closure_drop_slots(definition@)[j] by {
        assert(slots_view(r@)[j] == r@[j]@);
    }
    r
}

/// The drop function of the evaluated thunk of `definition`: it releases the
/// value in the second member of the payload union.
pub fn compile_normal_thunk<B>(definition: &Definition<B>) -> (r: DropFunction)
    ensures
        r@ == (drop_function_argument(), seq![normal_thunk_drop_slot(definition@)]),
        r.argument@ == (CLOSURE_NAME@, SpecEntryArgumentType::PointerInteger),
        r.releases@.len() == 1,
        r.releases@[0]@ == (Address::UnionMember(Box::new(Address::Payload), 1), definition@.result_type),
{
    let value = Slot {
        address: Address::UnionMember(Box::new(Address::Payload), 1),
        type_: definition.result_type().duplicate(),
    };
    let releases = vec![value];
    assert(slots_view(releases@) =~= seq![normal_thunk_drop_slot(definition@)]);
    compile_with_builder(releases)
}

/// The drop function of a closure releases every free variable exactly
/// once, in order: slot `j` is field `j` of the payload, seen as the record of
/// the free variables, with the type of free variable `j`.  The drop function
/// of an evaluated thunk releases one slot: the value in the second member of
/// the payload union, with the thunk's result type.
pub proof fn law_closure_drop_releases_every_free_variable<B>(d: SpecDefinition<B>)
    ensures
        closure_drop_slots(d).len() == d.environment.len(),
        forall|j: int|
            0 <= j < d.environment.len() ==> #[trigger] closure_drop_slots(d)[j] == (
                Address::RecordField(Box::new(Address::Payload), j as usize),
                d.environment[j].1,
            ),
        normal_thunk_drop_slot(d) == (Address::UnionMember(Box::new(Address::Payload), 1), d.result_type),
{
}

/// The drop function of an ordinary closure releases exactly the free
/// variables that its entry function loads for the body, in order and with
/// their types.
pub proof fn law_closure_drop_releases_the_environment<B>(d: SpecDefinition<B>)
    requires
        !d.is_thunk,
    ensures
        closure_drop_slots(d) == environment_slots(d),
{
    assert(closure_drop_slots(d) =~= environment_slots(d));
}

/// The drop function that a thunk's initial entry installs releases exactly
/// the slot where that entry stores the value, right before installing it.
pub proof fn law_evaluated_thunk_drop_releases_its_value<B>(d: SpecDefinition<B>)
    ensures
        initial_entry_code(d)[3 + environment_slots(d).len() as int] == SpecInstruction::StoreValue(normal_thunk_drop_slot(d)),
        initial_entry_code(d)[4 + environment_slots(d).len() as int] == SpecInstruction::SetDropFunction(normal_thunk_drop_slot(d)),
{
}

/// The drop function of a thunk that was never evaluated releases its free
/// variables at the places, and with the types, where the thunk's initial
/// entry would have released them: the environment is the first member of the
/// payload union, which lies where the payload does.
pub proof fn law_thunk_drop_releases_the_environment_in_place<B>(d: SpecDefinition<B>)
    requires
        d.is_thunk,
    ensures
        closure_drop_slots(d).len() == environment_slots(d).len(),
        forall|j: int|
            0 <= j < environment_slots(d).len() ==> place(#[trigger] closure_drop_slots(d)[j].0) == place(
                environment_slots(d)[j].0,
            ) && closure_drop_slots(d)[j].1 == environment_slots(d)[j].1,
{
    reveal_with_fuel(place, 3);
}

} // verus!
