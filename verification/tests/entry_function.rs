use pen::mir::argument::Argument;
use pen::mir::definition::{Definition, FunctionDefinition};
use pen::mir::types::{Function, Type};
use pen::mir_fmm::closure::drop;
use pen::mir_fmm::entry_function::{
    body_scope_of, compile, compile_argument_variables, compile_arguments, entry_function_definition_options,
    compile_initial_thunk_entry, compile_locked_thunk_entry, compile_normal_thunk_entry, environment_pointer,
    environment_slots_of, thunk_value_pointer, CallingConvention, EntryArgument, EntryArgumentType, Instruction,
    Linkage, MemoryOrder, CLOSURE_NAME,
};
use pen::mir_fmm::layout::{Address, Slot};
use pen::mir_fmm::scope::{Binding, Scope};

fn argument(name: &str, type_: Type) -> Argument {
    Argument::new(name.to_string(), type_)
}

fn names(names: &[&str]) -> Vec<String> {
    names.iter().map(|name| name.to_string()).collect()
}

fn union_member(index: usize) -> Address {
    Address::UnionMember(Box::new(Address::Payload), index)
}

// The body of `f` calls `g`, a local function that calls `f`: compiling the
// global `f` must leave the global `f` that the caller gives visible.  The
// body is carried, not compiled, and no instruction module is generated to
// compare with a snapshot: the test checks the scope in which the body would
// be compiled, which is what decides the outcome.
#[test]
fn do_not_overwrite_global_functions_in_variables() {
    let body = "let rec g = \\() -> f() in g()";
    let definition = FunctionDefinition::new("f".to_string(), vec![], body, Type::Number);
    let entry = compile(&definition, true, &names(&["f"]));
    assert_eq!(entry.scope.get("f"), Some(&Binding::Given(0)));
    assert_eq!(entry.scope.entries().len(), 1);
    assert_eq!(entry.result, Type::Number);
    assert_eq!(entry.code, vec![Instruction::EvaluateBody, Instruction::Return]);
    assert!(entry.thunk.is_none());
}

#[test]
fn local_definition_sees_its_own_closure() {
    let definition = Definition::new("f".to_string(), vec![], (), Type::Number);
    let scope = body_scope_of(&names(&["f", "h"]), &definition, false);
    assert_eq!(scope.get("f"), Some(&Binding::Closure));
    assert_eq!(scope.get("h"), Some(&Binding::Given(1)));
}

#[test]
fn arguments_shadow_everything() {
    let definition = Definition::with_environment(
        "f".to_string(),
        vec![argument("x", Type::Boolean), argument("y", Type::Boolean)],
        vec![argument("f", Type::Number), argument("x", Type::Number), argument("x", Type::ByteString)],
        (),
        Type::Number,
    );
    let scope = body_scope_of(&names(&["x", "y", "z"]), &definition, false);
    assert_eq!(scope.get("f"), Some(&Binding::Argument(0)));
    assert_eq!(scope.get("x"), Some(&Binding::Argument(2)));
    assert_eq!(
        scope.get("y"),
        Some(&Binding::FreeVariable(Address::RecordField(Box::new(Address::Payload), 1), Type::Boolean))
    );
    assert_eq!(scope.get("z"), Some(&Binding::Given(2)));
    assert_eq!(scope.get("w"), None);
    assert_eq!(scope.entries().len(), 4);
}

#[test]
fn free_variables_of_a_thunk_come_from_the_first_union_member() {
    let definition = Definition::with_options(
        "t".to_string(),
        vec![argument("a", Type::Number), argument("b", Type::Variant)],
        vec![],
        (),
        Type::Number,
        true,
    );
    let scope = body_scope_of(&[], &definition, true);
    assert_eq!(
        scope.get("a"),
        Some(&Binding::FreeVariable(Address::RecordField(Box::new(union_member(0)), 0), Type::Number))
    );
    assert_eq!(
        scope.get("b"),
        Some(&Binding::FreeVariable(Address::RecordField(Box::new(union_member(0)), 1), Type::Variant))
    );
    assert_eq!(scope.get("t"), None);
}

#[test]
fn environment_and_value_pointers() {
    let function = Definition::new("f".to_string(), vec![], (), Type::Number);
    let thunk = Definition::thunk("t".to_string(), vec![], (), Type::Number);
    assert_eq!(environment_pointer(&function), Address::Payload);
    assert_eq!(environment_pointer(&thunk), union_member(0));
    assert_eq!(thunk_value_pointer(&thunk), union_member(1));
}

#[test]
fn entry_arguments_start_with_the_closure() {
    let definition =
        Definition::new("f".to_string(), vec![argument("x", Type::Number), argument("y", Type::Boolean)], (), Type::Number);
    let arguments = compile_arguments(&definition);
    assert_eq!(
        arguments,
        vec![
            EntryArgument { name: CLOSURE_NAME.to_string(), type_: EntryArgumentType::UntypedClosurePointer },
            EntryArgument { name: "x".to_string(), type_: EntryArgumentType::Value(Type::Number) },
            EntryArgument { name: "y".to_string(), type_: EntryArgumentType::Value(Type::Boolean) },
        ]
    );
    assert_eq!(CLOSURE_NAME, "_closure");
    assert_eq!(compile_argument_variables(&arguments), arguments);
}

#[test]
fn compiled_thunk_releases_its_environment_and_stores_its_value() {
    let definition = Definition::with_options(
        "t".to_string(),
        vec![argument("a", Type::ByteString)],
        vec![],
        (),
        Type::Function(Function::new(vec![], Type::Number)),
        true,
    );
    let entry = compile(&definition, false, &[]);
    assert_eq!(entry.result, Type::Function(Function::new(vec![], Type::Number)));
    assert_eq!(entry.code, compile_initial_thunk_entry(&definition, false, &[]).code);
    let thunk = entry.thunk.unwrap();
    assert_eq!(thunk.normal_entry.code, compile_normal_thunk_entry(&definition).code);
    assert_eq!(thunk.locked_entry.code, compile_locked_thunk_entry(&definition).code);
    for other in [&thunk.normal_entry, &thunk.locked_entry] {
        assert_eq!(other.arguments, entry.arguments);
        assert_eq!(other.result, entry.result);
        assert_eq!(other.options, entry.options);
        assert!(other.scope.is_none());
    }
    assert_eq!(
        thunk.releases,
        vec![Slot { address: Address::RecordField(Box::new(union_member(0)), 0), type_: Type::ByteString }]
    );
    assert_eq!(thunk.releases, environment_slots_of(&definition));
    assert_eq!(thunk.value, Slot { address: union_member(1), type_: Type::Function(Function::new(vec![], Type::Number)) });
    assert_eq!(drop::compile_normal_thunk(&definition), thunk.normal_drop);
    assert_eq!(thunk.normal_drop.releases, vec![thunk.value.clone()]);
    assert_eq!(
        thunk.normal_drop.argument,
        EntryArgument { name: CLOSURE_NAME.to_string(), type_: EntryArgumentType::PointerInteger }
    );
    assert_eq!(entry.scope.get("t"), Some(&Binding::Closure));
}

#[test]
fn entry_functions_are_internal_and_use_the_source_convention() {
    let options = entry_function_definition_options();
    assert!(!options.address_named);
    assert_eq!(options.calling_convention, CallingConvention::Source);
    assert_eq!(options.linkage, Linkage::Internal);
    let definition = Definition::new("f".to_string(), vec![], (), Type::Number);
    assert_eq!(compile(&definition, true, &[]).options, options);
}

#[test]
fn closure_drop_releases_the_environment() {
    let definition = Definition::with_environment(
        "f".to_string(),
        vec![argument("a", Type::Number), argument("b", Type::Boolean)],
        vec![],
        (),
        Type::Number,
    );
    let function = drop::compile(&definition);
    assert_eq!(
        function.argument,
        EntryArgument { name: CLOSURE_NAME.to_string(), type_: EntryArgumentType::PointerInteger }
    );
    let slots = function.releases;
    assert_eq!(
        slots,
        vec![
            Slot { address: Address::RecordField(Box::new(Address::Payload), 0), type_: Type::Number },
            Slot { address: Address::RecordField(Box::new(Address::Payload), 1), type_: Type::Boolean },
        ]
    );
    assert_eq!(slots, environment_slots_of(&definition));
}

#[test]
fn scope_insert_replaces_a_binding() {
    let mut scope = Scope::new();
    scope.insert("x".to_string(), Binding::Given(0));
    scope.insert("y".to_string(), Binding::Closure);
    scope.insert("x".to_string(), Binding::Argument(3));
    assert_eq!(scope.get("x"), Some(&Binding::Argument(3)));
    assert_eq!(scope.get("y"), Some(&Binding::Closure));
    assert_eq!(scope.entries().len(), 2);
}

#[test]
fn thunk_entry_code() {
    let definition = Definition::with_options(
        "t".to_string(),
        vec![argument("a", Type::Number), argument("b", Type::Boolean)],
        vec![],
        (),
        Type::ByteString,
        true,
    );
    let environment = |index| Address::RecordField(Box::new(union_member(0)), index);
    let value = Slot { address: union_member(1), type_: Type::ByteString };
    let initial = compile_initial_thunk_entry(&definition, true, &["a".to_string()]);
    assert_eq!(initial.scope.unwrap().get("a"), Some(&Binding::FreeVariable(environment(0), Type::Number)));
    assert_eq!(initial.result, Type::ByteString);
    assert_eq!(initial.arguments, compile_arguments(&definition));
    assert_eq!(
        initial.code,
        vec![
            Instruction::LockOrForward {
                success: MemoryOrder::Acquire,
                failure: MemoryOrder::Relaxed,
                forward: MemoryOrder::Relaxed,
            },
            Instruction::RetainClosure,
            Instruction::EvaluateBody,
            Instruction::Release(Slot { address: environment(0), type_: Type::Number }),
            Instruction::Release(Slot { address: environment(1), type_: Type::Boolean }),
            Instruction::StoreValue(value.clone()),
            Instruction::SetDropFunction(value.clone()),
            Instruction::PublishNormalEntry(MemoryOrder::Release),
            Instruction::ReleaseClosure,
            Instruction::Return,
        ]
    );
    assert_eq!(
        compile_normal_thunk_entry(&definition).code,
        vec![Instruction::LoadEntry(MemoryOrder::Acquire), Instruction::LoadValue(value), Instruction::ReleaseClosure, Instruction::Return]
    );
    let locked = compile_locked_thunk_entry(&definition);
    assert_eq!(locked.arguments, compile_arguments(&definition));
    assert_eq!(locked.result, Type::ByteString);
    assert_eq!(locked.code, vec![Instruction::Yield, Instruction::ForwardToCurrentEntry(MemoryOrder::Relaxed)]);
}
