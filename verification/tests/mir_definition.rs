use pen::mir::argument::Argument;
use pen::mir::definition::Definition;
use pen::mir::types::{Function, Record, Type};

fn argument(name: &str, type_: Type) -> Argument {
    Argument::new(name.to_string(), type_)
}

#[test]
fn function_type_lists_argument_types_then_result() {
    let definition = Definition::new(
        "f".to_string(),
        vec![argument("x", Type::Number), argument("y", Type::Boolean)],
        "body",
        Type::ByteString,
    );
    assert_eq!(definition.type_().arguments(), &[Type::Number, Type::Boolean][..]);
    assert_eq!(definition.type_().result(), &Type::ByteString);
}

#[test]
fn function_type_of_nested_function_argument() {
    let inner = Type::Function(Function::new(vec![Type::Number], Type::Record(Record::new("r".to_string()))));
    let definition = Definition::new("f".to_string(), vec![argument("g", inner.clone())], (), Type::NoneType);
    assert_eq!(definition.type_().arguments(), &[inner][..]);
    assert_eq!(definition.type_().result(), &Type::NoneType);
}

#[test]
fn function_type_without_arguments() {
    let definition = Definition::new("f".to_string(), vec![], (), Type::Number);
    assert!(definition.type_().arguments().is_empty());
    assert_eq!(definition.type_().result(), &Type::Number);
}

#[test]
fn new_definition_is_not_a_thunk_and_has_no_environment() {
    let definition = Definition::new("f".to_string(), vec![argument("x", Type::Number)], 42, Type::Number);
    assert!(!definition.is_thunk());
    assert!(definition.environment().is_empty());
    assert_eq!(definition.name(), "f");
    assert_eq!(definition.arguments(), &[argument("x", Type::Number)][..]);
    assert_eq!(definition.body(), &42);
    assert_eq!(definition.result_type(), &Type::Number);
}

#[test]
fn thunk_definition_is_a_thunk() {
    let definition = Definition::thunk("t".to_string(), vec![], "body", Type::Number);
    assert!(definition.is_thunk());
    assert!(definition.environment().is_empty());
}

#[test]
fn definition_with_environment_keeps_it() {
    let definition = Definition::with_environment(
        "f".to_string(),
        vec![argument("e", Type::Variant)],
        vec![argument("x", Type::Number)],
        (),
        Type::Number,
    );
    assert_eq!(definition.environment(), &[argument("e", Type::Variant)][..]);
    assert!(!definition.is_thunk());
}

#[test]
fn definition_with_options_keeps_every_field() {
    let definition = Definition::with_options(
        "f".to_string(),
        vec![argument("e", Type::Boolean)],
        vec![argument("x", Type::Number)],
        "body",
        Type::ByteString,
        true,
    );
    assert_eq!(definition.name(), "f");
    assert_eq!(definition.environment(), &[argument("e", Type::Boolean)][..]);
    assert_eq!(definition.arguments(), &[argument("x", Type::Number)][..]);
    assert_eq!(definition.body(), &"body");
    assert_eq!(definition.result_type(), &Type::ByteString);
    assert!(definition.is_thunk());
    assert_eq!(definition.type_().arguments(), &[Type::Number][..]);
}

#[test]
fn cloned_definition_is_equal() {
    let definition = Definition::with_environment(
        "f".to_string(),
        vec![argument("e", Type::Boolean)],
        vec![argument("x", Type::Function(Function::new(vec![], Type::Number)))],
        "body".to_string(),
        Type::Number,
    );
    assert_eq!(definition.clone(), definition);
}

#[test]
fn type_duplicate_is_equal() {
    let t = Type::Function(Function::new(
        vec![Type::Function(Function::new(vec![Type::Variant], Type::Boolean)), Type::ByteString],
        Type::Record(Record::new("point".to_string())),
    ));
    assert_eq!(t.duplicate(), t);
    assert_eq!(t.clone(), t);
}

#[test]
fn record_keeps_its_name() {
    assert_eq!(Record::new("point".to_string()).name(), "point");
}

#[test]
fn argument_keeps_name_and_type() {
    let a = argument("x", Type::Number);
    assert_eq!(a.name(), "x");
    assert_eq!(a.type_(), &Type::Number);
    assert_eq!(a.duplicate(), a);
}
