use std::collections::hash_map::DefaultHasher;
use std::hash::Hasher;
use uniffi_bindgen::attributes::{
    parse_attributes, ArgumentAttributes, Attribute, AttributeTarget, ConstructorAttributes,
    EnumAttributes, FunctionAttributes, InterfaceAttributes, MethodAttributes, RawAttribute,
    SelfType, TypedefAttributes,
};
use uniffi_bindgen::checksum::Checksummed;
use uniffi_bindgen::interface::{
    ComponentInterface, FFIArgument, FFIFunction, FFIType, InterfaceError, Literal, Namespace,
    Radix, Type,
};
use uniffi_bindgen::text::{join, same_name, to_hex4};
use uniffi_bindgen::types::resolve_builtin_type;
use uniffi_bindgen::universe::{TypeExpr, TypeUniverse};

fn attr(name: &str, value: Option<&str>) -> RawAttribute {
    RawAttribute { name: name.to_string(), value: value.map(|v| v.to_string()) }
}

#[test]
fn hex_digits_are_padded_and_lower_case() {
    assert_eq!(to_hex4(0), "0000");
    assert_eq!(to_hex4(0x00ab), "00ab");
    assert_eq!(to_hex4(0x1234), "1234");
    assert_eq!(to_hex4(0xFFFF), "ffff");
    assert_eq!(to_hex4(0x9f0e), "9f0e");
}

#[test]
fn symbols_are_joined_by_underscores() {
    assert_eq!(join("example_00ab", "hello"), "example_00ab_hello");
    assert_eq!(join("", ""), "_");
}

#[test]
fn names_are_compared_by_their_characters() {
    assert!(same_name(&"new".to_string(), "new"));
    assert!(!same_name(&"new".to_string(), "news"));
    assert!(!same_name(&"New".to_string(), "new"));
    assert!(same_name(&String::new(), ""));
}

#[test]
fn builtin_names_resolve() {
    assert_eq!(resolve_builtin_type("boolean"), Some(Type::Boolean));
    assert_eq!(resolve_builtin_type("string"), Some(Type::String));
    assert_eq!(resolve_builtin_type("bytes"), Some(Type::Bytes));
    assert_eq!(resolve_builtin_type("u8"), Some(Type::UInt8));
    assert_eq!(resolve_builtin_type("i8"), Some(Type::Int8));
    assert_eq!(resolve_builtin_type("u16"), Some(Type::UInt16));
    assert_eq!(resolve_builtin_type("i16"), Some(Type::Int16));
    assert_eq!(resolve_builtin_type("u32"), Some(Type::UInt32));
    assert_eq!(resolve_builtin_type("i32"), Some(Type::Int32));
    assert_eq!(resolve_builtin_type("u64"), Some(Type::UInt64));
    assert_eq!(resolve_builtin_type("i64"), Some(Type::Int64));
    assert_eq!(resolve_builtin_type("f32"), Some(Type::Float32));
    assert_eq!(resolve_builtin_type("f64"), Some(Type::Float64));
    assert_eq!(resolve_builtin_type("String"), None);
    assert_eq!(resolve_builtin_type(""), None);
}

#[test]
fn types_are_compared_and_copied_by_structure() {
    let a = Type::Mapping(
        Box::new(Type::String),
        Box::new(Type::Optional(Box::new(Type::Record("Point".to_string())))),
    );
    let b = a.clone();
    assert!(a.same(&b));
    assert_eq!(a, b);
    assert_eq!(a.duplicate(), a);
    assert!(!a.same(&Type::Mapping(Box::new(Type::String), Box::new(Type::String))));
    assert!(!Type::Record("A".to_string()).same(&Type::Enum("A".to_string())));
    assert!(!Type::Record("A".to_string()).same(&Type::Record("B".to_string())));
    let external = Type::External { name: "Page".to_string(), crate_name: "pages".to_string() };
    assert!(external.same(&external.clone()));
    assert!(!external
        .same(&Type::External { name: "Page".to_string(), crate_name: "other".to_string() }));
    let custom = Type::Custom { name: "Url".to_string(), builtin: Box::new(Type::String) };
    assert!(custom.same(&custom.clone()));
    assert!(!custom.same(&Type::Custom { name: "Url".to_string(), builtin: Box::new(Type::Bytes) }));
}

#[test]
fn a_type_holds_itself_and_its_components() {
    let point = Type::Record("Point".to_string());
    let map = Type::Mapping(
        Box::new(Type::String),
        Box::new(Type::Sequence(Box::new(point.clone()))),
    );
    let held = map.iter_types();
    assert_eq!(
        held,
        vec![&map, &Type::String, &Type::Sequence(Box::new(point.clone())), &point]
    );
    assert_eq!(Type::UInt8.iter_types(), vec![&Type::UInt8]);
    let custom = Type::Custom { name: "Url".to_string(), builtin: Box::new(Type::String) };
    assert_eq!(custom.iter_types(), vec![&custom]);
}

#[test]
fn low_level_types_carry_the_values() {
    assert_eq!(FFIType::from_type(&Type::UInt8), FFIType::UInt8);
    assert_eq!(FFIType::from_type(&Type::Int8), FFIType::Int8);
    assert_eq!(FFIType::from_type(&Type::UInt16), FFIType::UInt16);
    assert_eq!(FFIType::from_type(&Type::Int16), FFIType::Int16);
    assert_eq!(FFIType::from_type(&Type::UInt32), FFIType::UInt32);
    assert_eq!(FFIType::from_type(&Type::Int32), FFIType::Int32);
    assert_eq!(FFIType::from_type(&Type::UInt64), FFIType::UInt64);
    assert_eq!(FFIType::from_type(&Type::Int64), FFIType::Int64);
    assert_eq!(FFIType::from_type(&Type::Float32), FFIType::Float32);
    assert_eq!(FFIType::from_type(&Type::Float64), FFIType::Float64);
    assert_eq!(FFIType::from_type(&Type::Boolean), FFIType::Int8);
    assert_eq!(FFIType::from_type(&Type::String), FFIType::RustBuffer);
    assert_eq!(FFIType::from_type(&Type::Bytes), FFIType::RustBuffer);
    assert_eq!(FFIType::from_type(&Type::Object("A".to_string())), FFIType::RustArcPtr);
    assert_eq!(FFIType::from_type(&Type::Record("A".to_string())), FFIType::RustBuffer);
    assert_eq!(FFIType::from_type(&Type::Enum("A".to_string())), FFIType::RustBuffer);
    assert_eq!(FFIType::from_type(&Type::Error("A".to_string())), FFIType::RustBuffer);
    assert_eq!(
        FFIType::from_type(&Type::CallbackInterface("A".to_string())),
        FFIType::ForeignCallback
    );
    assert_eq!(FFIType::from_type(&Type::Optional(Box::new(Type::UInt8))), FFIType::RustBuffer);
    assert_eq!(FFIType::from_type(&Type::Sequence(Box::new(Type::UInt8))), FFIType::RustBuffer);
    assert_eq!(
        FFIType::from_type(&Type::Mapping(Box::new(Type::String), Box::new(Type::UInt8))),
        FFIType::RustBuffer
    );
    assert_eq!(
        FFIType::from_type(&Type::External { name: "P".to_string(), crate_name: "c".to_string() }),
        FFIType::RustBuffer
    );
    assert_eq!(
        FFIType::from_type(&Type::Custom { name: "H".to_string(), builtin: Box::new(Type::UInt64) }),
        FFIType::UInt64
    );
}

#[test]
fn low_level_functions_start_empty() {
    let f = FFIFunction::default();
    assert_eq!(f.name(), "");
    assert_eq!(f.arguments().len(), 0);
    assert_eq!(f.return_type(), None);
    let a = FFIArgument::new("size", FFIType::Int32);
    assert_eq!(a.name(), "size");
    assert_eq!(a.type_(), FFIType::Int32);
    assert_eq!(a.clone(), a);
    assert_eq!(f.clone(), f);
}

#[test]
fn radix_has_its_base() {
    assert_eq!(Radix::Decimal.base(), 10);
    assert_eq!(Radix::Octal.base(), 8);
    assert_eq!(Radix::Hexadecimal.base(), 16);
}

#[test]
fn literals_are_copied_whole() {
    let l = Literal::UInt(255, Radix::Hexadecimal, Type::UInt8);
    assert_eq!(l.clone(), l);
    let e = Literal::Enum("Red".to_string(), Type::Enum("Color".to_string()));
    assert_eq!(e.clone(), e);
    assert_eq!(Literal::Null.clone(), Literal::Null);
}

#[test]
fn a_name_is_bound_once() {
    let mut types = TypeUniverse::new();
    assert!(types.add_type_definition("Point", Type::Record("Point".to_string())).is_ok());
    assert_eq!(types.get_type_definition("Point"), Some(Type::Record("Point".to_string())));
    assert_eq!(types.get_type_definition("Line"), None);
    // The same binding again changes nothing.
    assert!(types.add_type_definition("Point", Type::Record("Point".to_string())).is_ok());
    assert_eq!(types.iter_known_types(), vec![&Type::Record("Point".to_string())]);
    // Another binding of the name is refused, and changes nothing.
    assert_eq!(
        types.add_type_definition("Point", Type::Enum("Point".to_string())),
        Err(InterfaceError::DuplicateDefinition("Point".to_string()))
    );
    assert_eq!(types.get_type_definition("Point"), Some(Type::Record("Point".to_string())));
    assert_eq!(types.iter_known_types().len(), 1);
}

#[test]
fn builtin_names_are_bound_from_the_start() {
    let mut types = TypeUniverse::new();
    assert_eq!(
        types.add_type_definition("string", Type::Record("string".to_string())),
        Err(InterfaceError::DuplicateDefinition("string".to_string()))
    );
    assert!(types.add_type_definition("string", Type::String).is_ok());
    assert_eq!(types.get_type_definition("string"), None);
    assert_eq!(types.iter_known_types(), vec![&Type::String]);
}

#[test]
fn known_types_are_recorded_once_components_first() {
    let mut types = TypeUniverse::new();
    let inner = Type::Sequence(Box::new(Type::UInt8));
    let outer = Type::Optional(Box::new(inner.clone()));
    types.add_known_type(&outer);
    assert_eq!(types.iter_known_types(), vec![&Type::UInt8, &inner, &outer]);
    types.add_known_type(&inner);
    types.add_known_type(&Type::Mapping(Box::new(Type::String), Box::new(Type::UInt8)));
    assert_eq!(
        types.iter_known_types(),
        vec![
            &Type::UInt8,
            &inner,
            &outer,
            &Type::String,
            &Type::Mapping(Box::new(Type::String), Box::new(Type::UInt8))
        ]
    );
}

#[test]
fn resolving_registers_every_structure() {
    let mut types = TypeUniverse::new();
    assert!(types.add_type_definition("Foo", Type::Record("Foo".to_string())).is_ok());
    let expr = TypeExpr::Optional(Box::new(TypeExpr::Sequence(Box::new(TypeExpr::Named(
        "Foo".to_string(),
    )))));
    let foo = Type::Record("Foo".to_string());
    let sequence = Type::Sequence(Box::new(foo.clone()));
    let optional = Type::Optional(Box::new(sequence.clone()));
    assert_eq!(types.resolve_type_expression(&expr), Ok(optional.clone()));
    assert_eq!(types.iter_known_types(), vec![&foo, &sequence, &optional]);
    let map = TypeExpr::Mapping(
        Box::new(TypeExpr::Named("string".to_string())),
        Box::new(TypeExpr::Named("Foo".to_string())),
    );
    assert_eq!(
        types.resolve_type_expression(&map),
        Ok(Type::Mapping(Box::new(Type::String), Box::new(foo.clone())))
    );
    assert_eq!(types.iter_known_types().len(), 5);
}

#[test]
fn resolving_an_unknown_name_fails_and_changes_nothing() {
    let mut types = TypeUniverse::new();
    let expr = TypeExpr::Mapping(
        Box::new(TypeExpr::Named("Left".to_string())),
        Box::new(TypeExpr::Named("Right".to_string())),
    );
    assert_eq!(
        types.resolve_type_expression(&expr),
        Err(InterfaceError::UnknownType("Left".to_string()))
    );
    assert_eq!(types.iter_known_types().len(), 0);
    let second = TypeExpr::Mapping(
        Box::new(TypeExpr::Named("string".to_string())),
        Box::new(TypeExpr::Sequence(Box::new(TypeExpr::Named("Right".to_string())))),
    );
    assert_eq!(
        types.resolve_type_expression(&second),
        Err(InterfaceError::UnknownType("Right".to_string()))
    );
    assert_eq!(types.iter_known_types().len(), 0);
}

#[test]
fn attributes_are_recognized() {
    let parse = |target, raw: RawAttribute| Attribute::parse(target, &raw);
    assert_eq!(parse(AttributeTarget::Argument, attr("ByRef", None)), Ok(Attribute::ByRef));
    assert_eq!(parse(AttributeTarget::Interface, attr("Enum", None)), Ok(Attribute::Enum));
    assert_eq!(parse(AttributeTarget::Interface, attr("Error", None)), Ok(Attribute::Error));
    assert_eq!(parse(AttributeTarget::Enum, attr("Error", None)), Ok(Attribute::Error));
    assert_eq!(
        parse(AttributeTarget::Interface, attr("Threadsafe", None)),
        Ok(Attribute::Threadsafe)
    );
    assert_eq!(parse(AttributeTarget::Typedef, attr("Custom", None)), Ok(Attribute::Custom));
    assert_eq!(
        parse(AttributeTarget::Typedef, attr("External", Some("pages"))),
        Ok(Attribute::External("pages".to_string()))
    );
    assert_eq!(
        parse(AttributeTarget::Constructor, attr("Name", Some("born"))),
        Ok(Attribute::Name("born".to_string()))
    );
    assert_eq!(
        parse(AttributeTarget::Function, attr("Throws", Some("Oops"))),
        Ok(Attribute::Throws("Oops".to_string()))
    );
    assert_eq!(
        parse(AttributeTarget::Method, attr("Self", Some("ByArc"))),
        Ok(Attribute::SelfType(SelfType::ByArc))
    );
    assert!(Attribute::Error.is_error());
    assert!(!Attribute::Enum.is_error());
    assert!(Attribute::Enum.is_enum());
    assert!(!Attribute::Custom.is_enum());
}

#[test]
fn attributes_out_of_place_are_refused() {
    let refused = |target, raw: RawAttribute| {
        let name = raw.name.clone();
        assert_eq!(
            Attribute::parse(target, &raw),
            Err(InterfaceError::UnsupportedAttribute(name))
        );
    };
    refused(AttributeTarget::Enum, attr("Enum", None));
    refused(AttributeTarget::Function, attr("ByRef", None));
    refused(AttributeTarget::Argument, attr("Throws", Some("Oops")));
    refused(AttributeTarget::Interface, attr("Custom", None));
    refused(AttributeTarget::Constructor, attr("Self", Some("ByArc")));
    refused(AttributeTarget::Method, attr("Name", Some("other")));
    refused(AttributeTarget::Typedef, attr("Threadsafe", None));
    // A key without the value it needs, or with one it does not take.
    refused(AttributeTarget::Function, attr("Throws", None));
    refused(AttributeTarget::Argument, attr("ByRef", Some("yes")));
    refused(AttributeTarget::Method, attr("Self", Some("ByRef")));
    refused(AttributeTarget::Method, attr("Sparkly", None));
    refused(AttributeTarget::Method, attr("Sparkly", Some("very")));
}

#[test]
fn the_first_refused_attribute_is_named() {
    let list = Some(vec![
        attr("Throws", Some("Oops")),
        attr("Shiny", None),
        attr("ByRef", None),
    ]);
    assert_eq!(
        parse_attributes(AttributeTarget::Function, &list),
        Err(InterfaceError::UnsupportedAttribute("Shiny".to_string()))
    );
    assert_eq!(
        parse_attributes(AttributeTarget::Argument, &list),
        Err(InterfaceError::UnsupportedAttribute("Throws".to_string()))
    );
    assert_eq!(parse_attributes(AttributeTarget::Function, &None), Ok(vec![]));
    assert_eq!(parse_attributes(AttributeTarget::Function, &Some(vec![])), Ok(vec![]));
}

#[test]
fn attribute_sets_answer_for_their_kind() {
    let none: Option<Vec<RawAttribute>> = None;
    assert!(!EnumAttributes::try_from(&none).unwrap().contains_error_attr());
    assert!(EnumAttributes::try_from(&Some(vec![attr("Error", None)]))
        .unwrap()
        .contains_error_attr());
    assert!(!EnumAttributes::default().contains_error_attr());

    let function =
        FunctionAttributes::try_from(&Some(vec![attr("Throws", Some("A")), attr("Throws", Some("B"))]))
            .unwrap();
    assert_eq!(function.get_throws_err(), Some("A"));
    assert_eq!(FunctionAttributes::default().get_throws_err(), None);

    assert!(ArgumentAttributes::try_from(&Some(vec![attr("ByRef", None)])).unwrap().by_ref());
    assert!(!ArgumentAttributes::try_from(&none).unwrap().by_ref());

    let interface = InterfaceAttributes::try_from(&Some(vec![
        attr("Threadsafe", None),
        attr("Error", None),
    ]))
    .unwrap();
    assert!(interface.threadsafe());
    assert!(interface.contains_error_attr());
    assert!(!interface.contains_enum_attr());
    assert!(InterfaceAttributes::try_from(&Some(vec![attr("Enum", None)]))
        .unwrap()
        .contains_enum_attr());

    let constructor = ConstructorAttributes::try_from(&Some(vec![
        attr("Name", Some("born")),
        attr("Throws", Some("Oops")),
    ]))
    .unwrap();
    assert_eq!(constructor.get_name(), Some("born"));
    assert_eq!(constructor.get_throws_err(), Some("Oops"));
    assert_eq!(ConstructorAttributes::default().get_name(), None);

    let method = MethodAttributes::try_from(&Some(vec![
        attr("Self", Some("ByArc")),
        attr("Throws", Some("Oops")),
    ]))
    .unwrap();
    assert!(method.get_self_by_arc());
    assert_eq!(method.get_throws_err(), Some("Oops"));
    assert!(!MethodAttributes::default().get_self_by_arc());

    let typedef = TypedefAttributes::try_from(&Some(vec![attr("External", Some("pages"))])).unwrap();
    assert!(!typedef.is_custom());
    assert_eq!(typedef.crate_name(), Some("pages"));
    assert_eq!(typedef.get_crate_name(), "pages");
    let custom = TypedefAttributes::try_from(&Some(vec![attr("Custom", None)])).unwrap();
    assert!(custom.is_custom());
    assert_eq!(custom.crate_name(), None);
    assert_eq!(
        TypedefAttributes::try_from(&Some(vec![attr("ByRef", None)])),
        Err(InterfaceError::UnsupportedAttribute("ByRef".to_string()))
    );
}

#[test]
fn an_interface_is_put_together_by_hand() {
    let mut ci = ComponentInterface::new();
    assert_eq!(ComponentInterface::generator_version(), "0.1.0");
    assert_eq!(
        ci.check_consistency(),
        Err(InterfaceError::ConsistencyViolation(
            uniffi_bindgen::interface::Inconsistency::MissingNamespace
        ))
    );
    assert!(ci.add_namespace_definition(Namespace::new("zoo".to_string())).is_ok());
    assert_eq!(
        ci.add_namespace_definition(Namespace::new("park".to_string())),
        Err(InterfaceError::DuplicateDefinition("park".to_string()))
    );
    assert_eq!(ci.namespace(), "zoo");
    assert!(ci.check_consistency().is_ok());
    assert_eq!(
        ci.resolve_type_expression(&TypeExpr::Named("Animal".to_string())),
        Err(InterfaceError::UnknownType("Animal".to_string()))
    );
    assert!(ci.add_type_definition("Animal", Type::Object("Animal".to_string())).is_ok());
    assert_eq!(
        ci.resolve_type_expression(&TypeExpr::Named("Animal".to_string())),
        Ok(Type::Object("Animal".to_string()))
    );
    ci.add_known_type(&Type::UInt8);
    assert_eq!(ci.iter_types(), vec![&Type::Object("Animal".to_string()), &Type::UInt8]);
    assert_eq!(ci.get_type("Animal"), Some(Type::Object("Animal".to_string())));
    assert_eq!(ci.iter_ffi_function_definitions().len(), 4);
}

#[test]
fn the_checksum_ignores_what_was_derived() {
    let mut ci = ComponentInterface::new();
    assert!(ci.add_namespace_definition(Namespace::new("zoo".to_string())).is_ok());
    let before = ci.checksum();
    assert!(ci.add_type_definition("Animal", Type::Object("Animal".to_string())).is_ok());
    assert_eq!(ci.checksum(), before);
    assert!(ci.derive_ffi_funcs().is_ok());
    assert_eq!(ci.checksum(), before);
    let mut other = ComponentInterface::new();
    assert!(other.add_namespace_definition(Namespace::new("park".to_string())).is_ok());
    assert_ne!(other.checksum(), before);
    // The version of the generator goes into the checksum.
    let mut unversioned = ComponentInterface::default();
    assert!(unversioned.add_namespace_definition(Namespace::new("zoo".to_string())).is_ok());
    assert_ne!(unversioned.checksum(), before);
}

#[test]
fn a_hasher_is_fed_the_same_for_the_same_type() {
    let feed = |t: &Type| {
        let mut h = DefaultHasher::new();
        t.hash(&mut h);
        h.finish()
    };
    let a = Type::Optional(Box::new(Type::Record("A".to_string())));
    assert_eq!(feed(&a), feed(&a.clone()));
    assert_ne!(feed(&a), feed(&Type::Sequence(Box::new(Type::Record("A".to_string())))));
    assert_ne!(feed(&Type::Record("A".to_string())), feed(&Type::Enum("A".to_string())));
    assert_ne!(feed(&Type::Record("AB".to_string())), feed(&Type::Record("A".to_string())));
}
