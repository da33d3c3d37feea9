use uniffi_bindgen::interface::ComponentInterface;
use uniffi_bindgen::types::Type;

#[test]
fn test_contains_optional_types() {
    let mut ci = ComponentInterface::default();

    // No optional type was seen yet.
    assert!(!ci.contains_optional_types());

    // Once one is bound to a name, it was seen.
    assert!(ci
        .add_type_definition("TestOptional{}", Type::Optional(Box::new(Type::String)))
        .is_ok());
    assert!(ci.contains_optional_types());
}

#[test]
fn test_contains_sequence_types() {
    let mut ci = ComponentInterface::default();

    assert!(!ci.contains_sequence_types());

    assert!(ci
        .add_type_definition("TestSequence{}", Type::Sequence(Box::new(Type::UInt64)))
        .is_ok());
    assert!(ci.contains_sequence_types());
}

#[test]
fn test_contains_map_types() {
    let mut ci = ComponentInterface::default();

    assert!(!ci.contains_map_types());

    assert!(ci
        .add_type_definition(
            "Map{}",
            Type::Mapping(Box::new(Type::String), Box::new(Type::Boolean))
        )
        .is_ok());
    assert!(ci.contains_map_types());
}
