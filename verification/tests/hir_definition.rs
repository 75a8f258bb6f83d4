use pen::hir::definition::Definition;

#[test]
fn definition_gives_back_what_it_was_built_with() {
    let definition = Definition::new("foo'bar".to_string(), "bar".to_string(), vec![1, 2], true, false, (3usize, 7usize));
    assert_eq!(definition.name(), "foo'bar");
    assert_eq!(definition.original_name(), "bar");
    assert_eq!(definition.lambda(), &vec![1, 2]);
    assert!(definition.is_foreign());
    assert!(!definition.is_public());
    assert_eq!(definition.position(), &(3, 7));
    assert_eq!(definition.clone(), definition);
}
