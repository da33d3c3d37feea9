use uniffi_bindgen::attributes::RawAttribute;
use uniffi_bindgen::interface::{
    ComponentInterface, FFIType, Inconsistency, InterfaceError, Type,
};
use uniffi_bindgen::syntax::{
    ArgumentNode, ConstructorNode, Definition, FieldNode, OperationNode,
};
use uniffi_bindgen::universe::TypeExpr;

fn named(name: &str) -> TypeExpr {
    TypeExpr::Named(name.to_string())
}

fn attr(name: &str, value: Option<&str>) -> RawAttribute {
    RawAttribute { name: name.to_string(), value: value.map(|v| v.to_string()) }
}

fn field(name: &str, type_: TypeExpr) -> FieldNode {
    FieldNode { name: name.to_string(), type_, required: true, default: None }
}

fn argument(name: &str, type_: TypeExpr) -> ArgumentNode {
    ArgumentNode { name: name.to_string(), type_, optional: false, default: None, attributes: None }
}

fn operation(name: &str, arguments: Vec<ArgumentNode>, return_type: Option<TypeExpr>) -> OperationNode {
    OperationNode { name: name.to_string(), arguments, return_type, attributes: None }
}

fn namespace(name: &str, functions: Vec<OperationNode>) -> Definition {
    Definition::Namespace { name: name.to_string(), functions }
}

fn hello_interface() -> Vec<Definition> {
    vec![namespace("example", vec![operation("hello", vec![], Some(named("string")))])]
}

#[test]
fn hello_has_five_ffi_functions() {
    let ci = ComponentInterface::from_definitions(&hello_interface()).unwrap();
    let ffi = ci.iter_ffi_function_definitions();
    assert_eq!(ffi.len(), 5);
    let symbol = format!("example_{:04x}_hello", ci.checksum() & 0xFFFF);
    assert_eq!(ffi[0].name(), symbol);
    assert_eq!(ci.get_function_definition("hello").unwrap().ffi_func().name(), symbol);
    assert_eq!(ffi[0].arguments().len(), 0);
    assert_eq!(ffi[0].return_type(), Some(&FFIType::RustBuffer));
    let prefix = ci.ffi_namespace();
    assert_eq!(ffi[1].name(), format!("ffi_{}_rustbuffer_alloc", prefix));
    assert_eq!(ffi[2].name(), format!("ffi_{}_rustbuffer_from_bytes", prefix));
    assert_eq!(ffi[3].name(), format!("ffi_{}_rustbuffer_free", prefix));
    assert_eq!(ffi[4].name(), format!("ffi_{}_rustbuffer_reserve", prefix));
}

#[test]
fn ffi_namespace_has_four_hex_digits() {
    let ci = ComponentInterface::from_definitions(&hello_interface()).unwrap();
    let prefix = ci.ffi_namespace();
    assert_eq!(prefix.len(), "example_".len() + 4);
    assert!(prefix.starts_with("example_"));
    assert!(prefix["example_".len()..].chars().all(|c| c.is_ascii_hexdigit() && !c.is_ascii_uppercase()));
    assert_eq!(prefix, format!("example_{:04x}", ci.checksum() & 0xFFFF));
}

#[test]
fn rust_buffer_functions_have_their_signatures() {
    let ci = ComponentInterface::from_definitions(&hello_interface()).unwrap();
    let alloc = ci.ffi_rustbuffer_alloc();
    assert_eq!(alloc.arguments().len(), 1);
    assert_eq!(alloc.arguments()[0].name(), "size");
    assert_eq!(alloc.arguments()[0].type_(), FFIType::Int32);
    assert_eq!(alloc.return_type(), Some(&FFIType::RustBuffer));
    let from_bytes = ci.ffi_rustbuffer_from_bytes();
    assert_eq!(from_bytes.arguments()[0].name(), "bytes");
    assert_eq!(from_bytes.arguments()[0].type_(), FFIType::ForeignBytes);
    assert_eq!(from_bytes.return_type(), Some(&FFIType::RustBuffer));
    let free = ci.ffi_rustbuffer_free();
    assert_eq!(free.arguments()[0].name(), "buf");
    assert_eq!(free.arguments()[0].type_(), FFIType::RustBuffer);
    assert_eq!(free.return_type(), None);
    let reserve = ci.ffi_rustbuffer_reserve();
    assert_eq!(reserve.arguments().len(), 2);
    assert_eq!(reserve.arguments()[0].name(), "buf");
    assert_eq!(reserve.arguments()[1].name(), "additional");
    assert_eq!(reserve.arguments()[1].type_(), FFIType::Int32);
    assert_eq!(reserve.return_type(), Some(&FFIType::RustBuffer));
    assert_eq!(ci.iter_rust_buffer_ffi_function_definitions().len(), 4);
}

#[test]
fn record_keeps_its_fields_in_order() {
    let defns = vec![
        namespace("geometry", vec![]),
        Definition::Dictionary {
            name: "Point".to_string(),
            fields: vec![field("x", named("i32")), field("y", named("i32"))],
        },
    ];
    let ci = ComponentInterface::from_definitions(&defns).unwrap();
    let point = ci.get_record_definition("Point").unwrap();
    assert_eq!(point.name(), "Point");
    assert_eq!(point.type_(), Type::Record("Point".to_string()));
    assert_eq!(point.fields().len(), 2);
    assert_eq!(point.fields()[0].name(), "x");
    assert_eq!(point.fields()[1].name(), "y");
    assert_eq!(point.fields()[0].type_(), Type::Int32);
    assert_eq!(point.fields()[1].type_(), Type::Int32);
    assert!(point.fields()[0].default_value().is_none());
    assert!(point.fields()[0].required());
    assert_eq!(ci.record_definitions().len(), 1);
}

#[test]
fn flat_enum_keeps_its_variants_in_order() {
    let defns = vec![
        namespace("paint", vec![]),
        Definition::Enum {
            name: "Color".to_string(),
            attributes: None,
            variants: vec!["Red".to_string(), "Green".to_string(), "Blue".to_string()],
        },
    ];
    let ci = ComponentInterface::from_definitions(&defns).unwrap();
    let color = ci.get_enum_definition("Color").unwrap();
    assert!(color.is_flat());
    assert_eq!(color.variants().len(), 3);
    assert_eq!(color.variants()[0].name(), "Red");
    assert_eq!(color.variants()[1].name(), "Green");
    assert_eq!(color.variants()[2].name(), "Blue");
    assert!(!color.variants()[0].has_fields());
    assert_eq!(color.type_(), Type::Enum("Color".to_string()));
    assert_eq!(ci.get_type("Color"), Some(Type::Enum("Color".to_string())));
}

#[test]
fn tagged_union_with_a_field_is_not_flat() {
    let defns = vec![
        namespace("shapes", vec![]),
        Definition::Interface {
            name: "Shape".to_string(),
            attributes: Some(vec![attr("Enum", None)]),
            constructors: vec![],
            members: vec![
                operation("Dot", vec![], None),
                operation("Circle", vec![argument("radius", named("u32"))], None),
            ],
        },
    ];
    let ci = ComponentInterface::from_definitions(&defns).unwrap();
    let shape = ci.get_enum_definition("Shape").unwrap();
    assert!(!shape.is_flat());
    assert_eq!(shape.variants().len(), 2);
    assert_eq!(shape.variants()[0].fields().len(), 0);
    assert_eq!(shape.variants()[1].fields().len(), 1);
    assert_eq!(shape.variants()[1].fields()[0].name(), "radius");
    assert_eq!(shape.variants()[1].fields()[0].type_(), Type::UInt32);
    assert!(ci.get_object_definition("Shape").is_none());
}

#[test]
fn tagged_union_without_fields_is_flat() {
    let defns = vec![
        namespace("shapes", vec![]),
        Definition::Interface {
            name: "Shape".to_string(),
            attributes: Some(vec![attr("Enum", None)]),
            constructors: vec![],
            members: vec![operation("Dot", vec![], None)],
        },
    ];
    let ci = ComponentInterface::from_definitions(&defns).unwrap();
    assert!(ci.get_enum_definition("Shape").unwrap().is_flat());
}

#[test]
fn duplicate_function_fails_the_build() {
    let defns = vec![namespace(
        "math",
        vec![operation("compute", vec![], None), operation("compute", vec![], Some(named("u8")))],
    )];
    let err = ComponentInterface::from_definitions(&defns).unwrap_err();
    assert_eq!(err, InterfaceError::DuplicateDefinition("compute".to_string()));
    assert_eq!(err.offending_name(), "compute");
}

#[test]
fn function_with_the_name_of_a_type_fails_the_build() {
    let defns = vec![
        namespace("math", vec![operation("Point", vec![], None)]),
        Definition::Dictionary { name: "Point".to_string(), fields: vec![] },
    ];
    let err = ComponentInterface::from_definitions(&defns).unwrap_err();
    assert_eq!(err, InterfaceError::DuplicateDefinition("Point".to_string()));
}

#[test]
fn forward_reference_resolves() {
    let defns = vec![
        namespace("zoo", vec![]),
        Definition::Dictionary {
            name: "Cage".to_string(),
            fields: vec![field("occupant", named("Animal"))],
        },
        Definition::Interface {
            name: "Animal".to_string(),
            attributes: None,
            constructors: vec![],
            members: vec![],
        },
    ];
    let ci = ComponentInterface::from_definitions(&defns).unwrap();
    let cage = ci.get_record_definition("Cage").unwrap();
    assert_eq!(cage.fields()[0].type_(), Type::Object("Animal".to_string()));
}

#[test]
fn backward_reference_resolves() {
    let defns = vec![
        Definition::Interface {
            name: "Animal".to_string(),
            attributes: None,
            constructors: vec![],
            members: vec![],
        },
        Definition::Dictionary {
            name: "Cage".to_string(),
            fields: vec![field("occupant", named("Animal"))],
        },
        namespace("zoo", vec![]),
    ];
    let ci = ComponentInterface::from_definitions(&defns).unwrap();
    let cage = ci.get_record_definition("Cage").unwrap();
    assert_eq!(cage.fields()[0].type_(), Type::Object("Animal".to_string()));
}

#[test]
fn undeclared_name_fails_with_unknown_type() {
    let first = vec![
        namespace("zoo", vec![]),
        Definition::Dictionary {
            name: "Cage".to_string(),
            fields: vec![field("occupant", named("Unicorn"))],
        },
    ];
    assert_eq!(
        ComponentInterface::from_definitions(&first).unwrap_err(),
        InterfaceError::UnknownType("Unicorn".to_string())
    );
    let second = vec![
        Definition::Dictionary {
            name: "Cage".to_string(),
            fields: vec![field("occupant", named("Unicorn"))],
        },
        namespace("zoo", vec![]),
    ];
    assert_eq!(
        ComponentInterface::from_definitions(&second).unwrap_err(),
        InterfaceError::UnknownType("Unicorn".to_string())
    );
}

#[test]
fn unknown_name_inside_a_structure_is_named() {
    let defns = vec![namespace(
        "zoo",
        vec![operation(
            "feed",
            vec![argument(
                "who",
                TypeExpr::Optional(Box::new(TypeExpr::Sequence(Box::new(named("Unicorn"))))),
            )],
            None,
        )],
    )];
    assert_eq!(
        ComponentInterface::from_definitions(&defns).unwrap_err(),
        InterfaceError::UnknownType("Unicorn".to_string())
    );
}

#[test]
fn unsupported_attribute_fails_the_build() {
    let defns = vec![
        namespace("zoo", vec![]),
        Definition::Enum {
            name: "Kind".to_string(),
            attributes: Some(vec![attr("ByRef", None)]),
            variants: vec![],
        },
    ];
    assert_eq!(
        ComponentInterface::from_definitions(&defns).unwrap_err(),
        InterfaceError::UnsupportedAttribute("ByRef".to_string())
    );
    let unknown = vec![
        namespace("zoo", vec![]),
        Definition::Interface {
            name: "Animal".to_string(),
            attributes: Some(vec![attr("Sparkly", None)]),
            constructors: vec![],
            members: vec![],
        },
    ];
    assert_eq!(
        ComponentInterface::from_definitions(&unknown).unwrap_err(),
        InterfaceError::UnsupportedAttribute("Sparkly".to_string())
    );
}

#[test]
fn missing_namespace_fails_the_build() {
    let defns = vec![Definition::Dictionary { name: "Point".to_string(), fields: vec![] }];
    let err = ComponentInterface::from_definitions(&defns).unwrap_err();
    assert_eq!(err, InterfaceError::ConsistencyViolation(Inconsistency::MissingNamespace));
    assert_eq!(err.offending_name(), "");
    assert_eq!(
        ComponentInterface::from_definitions(&vec![]).unwrap_err(),
        InterfaceError::ConsistencyViolation(Inconsistency::MissingNamespace)
    );
}

#[test]
fn second_namespace_fails_the_build() {
    let defns = vec![namespace("one", vec![]), namespace("two", vec![])];
    assert_eq!(
        ComponentInterface::from_definitions(&defns).unwrap_err(),
        InterfaceError::DuplicateDefinition("two".to_string())
    );
}

#[test]
fn variant_that_shadows_a_type_fails_the_build() {
    let defns = vec![
        namespace("zoo", vec![]),
        Definition::Enum {
            name: "Kind".to_string(),
            attributes: None,
            variants: vec!["Wild".to_string(), "Cage".to_string(), "Kind".to_string()],
        },
        Definition::Dictionary { name: "Cage".to_string(), fields: vec![] },
    ];
    let err = ComponentInterface::from_definitions(&defns).unwrap_err();
    assert_eq!(
        err,
        InterfaceError::ConsistencyViolation(Inconsistency::ShadowedTypeName("Cage".to_string()))
    );
    assert_eq!(err.offending_name(), "Cage");
}

#[test]
fn name_declared_twice_fails_the_build() {
    let defns = vec![
        namespace("zoo", vec![]),
        Definition::Dictionary { name: "Cage".to_string(), fields: vec![] },
        Definition::Enum { name: "Cage".to_string(), attributes: None, variants: vec![] },
    ];
    assert_eq!(
        ComponentInterface::from_definitions(&defns).unwrap_err(),
        InterfaceError::DuplicateDefinition("Cage".to_string())
    );
    let builtin = vec![
        namespace("zoo", vec![]),
        Definition::Dictionary { name: "string".to_string(), fields: vec![] },
    ];
    assert_eq!(
        ComponentInterface::from_definitions(&builtin).unwrap_err(),
        InterfaceError::DuplicateDefinition("string".to_string())
    );
}

#[test]
fn error_family_is_kept_apart_from_enums() {
    let defns = vec![
        namespace("zoo", vec![operation("feed", vec![], None)]),
        Definition::Enum {
            name: "Trouble".to_string(),
            attributes: Some(vec![attr("Error", None)]),
            variants: vec!["Escaped".to_string(), "Hungry".to_string()],
        },
        Definition::Interface {
            name: "Failure".to_string(),
            attributes: Some(vec![attr("Error", None)]),
            constructors: vec![],
            members: vec![operation("Bitten", vec![argument("by", named("string"))], None)],
        },
    ];
    let ci = ComponentInterface::from_definitions(&defns).unwrap();
    assert!(ci.get_enum_definition("Trouble").is_none());
    let trouble = ci.get_error_definition("Trouble").unwrap();
    assert_eq!(trouble.name(), "Trouble");
    assert_eq!(trouble.type_(), Type::Error("Trouble".to_string()));
    assert!(trouble.is_flat());
    assert_eq!(trouble.variants().len(), 2);
    assert_eq!(trouble.wrapped_enum().name(), "Trouble");
    let failure = ci.get_error_definition("Failure").unwrap();
    assert!(!failure.is_flat());
    assert_eq!(ci.error_definitions().len(), 2);
    assert_eq!(ci.enum_definitions().len(), 0);
}

#[test]
fn object_without_constructors_has_no_primary() {
    let defns = vec![
        namespace("zoo", vec![]),
        Definition::Interface {
            name: "Animal".to_string(),
            attributes: None,
            constructors: vec![],
            members: vec![],
        },
    ];
    let ci = ComponentInterface::from_definitions(&defns).unwrap();
    let animal = ci.get_object_definition("Animal").unwrap();
    assert_eq!(animal.constructors().len(), 0);
    assert!(animal.primary_constructor().is_none());
    assert_eq!(animal.alternate_constructors().len(), 0);
    assert_eq!(animal.methods().len(), 0);
    assert!(!animal.uses_deprecated_threadsafe_attribute());
}

fn animal() -> Vec<Definition> {
    vec![
        namespace("zoo", vec![]),
        Definition::Interface {
            name: "Animal".to_string(),
            attributes: Some(vec![attr("Threadsafe", None)]),
            constructors: vec![
                ConstructorNode {
                    arguments: vec![argument("age", named("u8"))],
                    attributes: Some(vec![attr("Name", Some("born")), attr("Throws", Some("Trouble"))]),
                },
                ConstructorNode { arguments: vec![argument("name", named("string"))], attributes: None },
            ],
            members: vec![
                OperationNode {
                    name: "speak".to_string(),
                    arguments: vec![ArgumentNode {
                        name: "loud".to_string(),
                        type_: named("boolean"),
                        optional: false,
                        default: None,
                        attributes: Some(vec![attr("ByRef", None)]),
                    }],
                    return_type: Some(named("string")),
                    attributes: Some(vec![attr("Throws", Some("Trouble"))]),
                },
                OperationNode {
                    name: "share".to_string(),
                    arguments: vec![],
                    return_type: None,
                    attributes: Some(vec![attr("Self", Some("ByArc"))]),
                },
            ],
        },
        Definition::Enum {
            name: "Trouble".to_string(),
            attributes: Some(vec![attr("Error", None)]),
            variants: vec!["Escaped".to_string()],
        },
    ]
}

#[test]
fn object_exposes_primary_and_alternate_constructors() {
    let ci = ComponentInterface::from_definitions(&animal()).unwrap();
    let animal = ci.get_object_definition("Animal").unwrap();
    assert_eq!(animal.type_(), Type::Object("Animal".to_string()));
    assert!(animal.uses_deprecated_threadsafe_attribute());
    assert_eq!(animal.constructors().len(), 2);
    let primary = animal.primary_constructor().unwrap();
    assert_eq!(primary.name(), "new");
    assert!(primary.is_primary_constructor());
    assert_eq!(primary.arguments()[0].name(), "name");
    assert_eq!(primary.throws(), None);
    assert_eq!(primary.throws_type(), None);
    let alternates = animal.alternate_constructors();
    assert_eq!(alternates.len(), 1);
    assert_eq!(alternates[0].name(), "born");
    assert!(!alternates[0].is_primary_constructor());
    assert_eq!(alternates[0].throws(), Some("Trouble"));
    assert_eq!(alternates[0].throws_type(), Some(Type::Error("Trouble".to_string())));
    assert_eq!(alternates[0].full_arguments().len(), 1);
}

#[test]
fn method_takes_its_receiver_first() {
    let ci = ComponentInterface::from_definitions(&animal()).unwrap();
    let animal = ci.get_object_definition("Animal").unwrap();
    assert_eq!(animal.count_methods("speak"), 1);
    assert_eq!(animal.count_methods("sing"), 0);
    let speak = animal.get_method("speak");
    assert_eq!(speak.name(), "speak");
    assert_eq!(speak.arguments().len(), 1);
    assert!(speak.arguments()[0].by_ref());
    assert!(!speak.takes_self_by_arc());
    assert_eq!(speak.return_type(), Some(&Type::String));
    assert_eq!(speak.throws(), Some("Trouble"));
    assert_eq!(speak.throws_type(), Some(Type::Error("Trouble".to_string())));
    let full = speak.full_arguments();
    assert_eq!(full.len(), 2);
    assert_eq!(full[0].name(), "ptr");
    assert_eq!(full[0].type_(), Type::Object("Animal".to_string()));
    assert!(full[0].by_ref());
    assert!(!full[0].optional());
    assert!(full[0].default_value().is_none());
    assert_eq!(full[1].name(), "loud");
    let share = animal.get_method("share");
    assert!(share.takes_self_by_arc());
    assert!(!share.full_arguments()[0].by_ref());
}

#[test]
fn object_derives_its_low_level_functions() {
    let ci = ComponentInterface::from_definitions(&animal()).unwrap();
    let prefix = ci.ffi_namespace();
    let animal = ci.get_object_definition("Animal").unwrap();
    let free = animal.ffi_object_free();
    assert_eq!(free.name(), format!("ffi_{}_Animal_object_free", prefix));
    assert_eq!(free.arguments().len(), 1);
    assert_eq!(free.arguments()[0].name(), "ptr");
    assert_eq!(free.arguments()[0].type_(), FFIType::RustArcPtr);
    assert_eq!(free.return_type(), None);
    let born = animal.constructors()[0].ffi_func();
    assert_eq!(born.name(), format!("{}_Animal_born", prefix));
    assert_eq!(born.arguments()[0].name(), "age");
    assert_eq!(born.arguments()[0].type_(), FFIType::UInt8);
    assert_eq!(born.return_type(), Some(&FFIType::RustArcPtr));
    let speak = animal.get_method("speak");
    assert_eq!(speak.ffi_func().name(), format!("{}_Animal_speak", prefix));
    assert_eq!(speak.ffi_func().arguments().len(), 2);
    assert_eq!(speak.ffi_func().arguments()[0].name(), "ptr");
    assert_eq!(speak.ffi_func().arguments()[0].type_(), FFIType::RustArcPtr);
    assert_eq!(speak.ffi_func().arguments()[1].type_(), FFIType::Int8);
    assert_eq!(speak.ffi_func().return_type(), Some(&FFIType::RustBuffer));
    let all = animal.iter_ffi_function_definitions();
    assert_eq!(all.len(), 5);
    assert_eq!(all[0].name(), free.name());
    assert_eq!(all[1].name(), format!("{}_Animal_born", prefix));
    assert_eq!(all[2].name(), format!("{}_Animal_new", prefix));
    assert_eq!(all[3].name(), format!("{}_Animal_speak", prefix));
    assert_eq!(all[4].name(), format!("{}_Animal_share", prefix));
    assert_eq!(ci.iter_user_ffi_function_definitions().len(), 5);
    assert_eq!(ci.iter_ffi_function_definitions().len(), 9);
}

#[test]
fn callback_interface_derives_its_registration() {
    let defns = vec![
        namespace("zoo", vec![]),
        Definition::CallbackInterface {
            name: "Keeper".to_string(),
            methods: vec![operation("called", vec![argument("by", named("string"))], Some(named("u64")))],
        },
        Definition::Dictionary {
            name: "Shift".to_string(),
            fields: vec![field("keeper", named("Keeper"))],
        },
    ];
    let ci = ComponentInterface::from_definitions(&defns).unwrap();
    let keeper = ci.get_callback_interface_definition("Keeper").unwrap();
    assert_eq!(keeper.name(), "Keeper");
    assert_eq!(keeper.type_(), Type::CallbackInterface("Keeper".to_string()));
    assert_eq!(keeper.methods().len(), 1);
    assert_eq!(keeper.methods()[0].name(), "called");
    let init = keeper.ffi_init_callback();
    assert_eq!(init.name(), format!("ffi_{}_Keeper_init_callback", ci.ffi_namespace()));
    assert_eq!(init.arguments().len(), 1);
    assert_eq!(init.arguments()[0].name(), "callback_stub");
    assert_eq!(init.arguments()[0].type_(), FFIType::ForeignCallback);
    assert_eq!(init.return_type(), None);
    assert_eq!(ci.callback_interface_definitions().len(), 1);
    assert_eq!(ci.iter_user_ffi_function_definitions().len(), 1);
}

#[test]
fn typedefs_declare_external_and_custom_types() {
    let defns = vec![
        namespace("web", vec![operation("open", vec![argument("at", named("Url"))], Some(named("Page")))]),
        Definition::Typedef {
            name: "Url".to_string(),
            attributes: Some(vec![attr("Custom", None)]),
            type_: named("string"),
        },
        Definition::Typedef {
            name: "Page".to_string(),
            attributes: Some(vec![attr("External", Some("pages"))]),
            type_: named("extern"),
        },
    ];
    let ci = ComponentInterface::from_definitions(&defns).unwrap();
    let custom = ci.iter_custom_types();
    assert_eq!(custom.len(), 1);
    assert_eq!(custom[0].0, "Url");
    assert_eq!(custom[0].1, &Type::String);
    let external = ci.iter_external_types();
    assert_eq!(external.len(), 1);
    assert_eq!(external[0].0, "Page");
    assert_eq!(external[0].1, "pages");
    let open = ci.get_function_definition("open").unwrap().ffi_func();
    assert_eq!(open.arguments()[0].type_(), FFIType::RustBuffer);
    assert_eq!(open.return_type(), Some(&FFIType::RustBuffer));
}

#[test]
fn typedef_without_its_attribute_is_refused() {
    let defns = vec![
        namespace("web", vec![]),
        Definition::Typedef { name: "Url".to_string(), attributes: None, type_: named("string") },
    ];
    assert_eq!(
        ComponentInterface::from_definitions(&defns).unwrap_err(),
        InterfaceError::UnsupportedAttribute("Url".to_string())
    );
}

#[test]
fn same_content_gives_same_checksum() {
    let one = ComponentInterface::from_definitions(&animal()).unwrap();
    let two = ComponentInterface::from_definitions(&animal()).unwrap();
    assert_eq!(one.checksum(), two.checksum());
    assert_eq!(one.ffi_namespace(), two.ffi_namespace());
}

#[test]
fn changed_content_changes_the_checksum() {
    let base = ComponentInterface::from_definitions(&hello_interface()).unwrap();
    let renamed = ComponentInterface::from_definitions(&vec![namespace(
        "example",
        vec![operation("hullo", vec![], Some(named("string")))],
    )])
    .unwrap();
    assert_ne!(base.checksum(), renamed.checksum());
    let retyped = ComponentInterface::from_definitions(&vec![namespace(
        "example",
        vec![operation("hello", vec![], Some(named("bytes")))],
    )])
    .unwrap();
    assert_ne!(base.checksum(), retyped.checksum());
    let mut throwing = operation("hello", vec![], Some(named("string")));
    throwing.attributes = Some(vec![attr("Throws", Some("Oops"))]);
    let attributed =
        ComponentInterface::from_definitions(&vec![namespace("example", vec![throwing])]).unwrap();
    assert_ne!(base.checksum(), attributed.checksum());
}

#[test]
fn derivation_can_be_repeated() {
    let mut ci = ComponentInterface::from_definitions(&animal()).unwrap();
    let before = ci.iter_ffi_function_definitions();
    let sum = ci.checksum();
    assert!(ci.derive_ffi_funcs().is_ok());
    let after = ci.iter_ffi_function_definitions();
    assert_eq!(before, after);
    assert_eq!(sum, ci.checksum());
}

#[test]
fn mutually_recursive_records_are_each_found_once() {
    let defns = vec![
        namespace("loop", vec![]),
        Definition::Dictionary {
            name: "Chicken".to_string(),
            fields: vec![field("laid", TypeExpr::Optional(Box::new(named("Egg"))))],
        },
        Definition::Dictionary {
            name: "Egg".to_string(),
            fields: vec![
                field("hatches", TypeExpr::Optional(Box::new(named("Chicken")))),
                field("weight", named("u16")),
            ],
        },
    ];
    let ci = ComponentInterface::from_definitions(&defns).unwrap();
    let chicken = Type::Record("Chicken".to_string());
    let reached = ci.iter_types_in_item(&chicken);
    let count = |t: &Type| reached.iter().filter(|r| **r == t).count();
    assert_eq!(count(&Type::Record("Chicken".to_string())), 1);
    assert_eq!(count(&Type::Record("Egg".to_string())), 1);
    assert_eq!(count(&Type::UInt16), 1);
    assert_eq!(reached.len(), 5);
    assert_eq!(reached[0], &chicken);
    assert!(ci.item_contains_unsigned_types(&chicken));
    assert!(!ci.item_contains_object_references(&chicken));
}

#[test]
fn object_references_are_found_through_declarations() {
    let defns = vec![
        namespace("zoo", vec![]),
        Definition::Dictionary {
            name: "Cage".to_string(),
            fields: vec![field("occupants", TypeExpr::Sequence(Box::new(named("Animal"))))],
        },
        Definition::Interface {
            name: "Animal".to_string(),
            attributes: None,
            constructors: vec![],
            members: vec![operation("age", vec![], Some(named("i64")))],
        },
    ];
    let ci = ComponentInterface::from_definitions(&defns).unwrap();
    assert!(ci.item_contains_object_references(&Type::Record("Cage".to_string())));
    assert!(!ci.item_contains_unsigned_types(&Type::Record("Cage".to_string())));
    assert!(!ci.item_contains_object_references(&Type::Record("Nothing".to_string())));
    assert!(!ci.item_contains_object_references(&Type::String));
    assert!(ci.item_contains_unsigned_types(&Type::Mapping(
        Box::new(Type::String),
        Box::new(Type::UInt8)
    )));
}

#[test]
fn known_types_are_recorded_in_order() {
    let defns = vec![
        namespace("zoo", vec![operation(
            "list",
            vec![],
            Some(TypeExpr::Optional(Box::new(TypeExpr::Sequence(Box::new(named("Animal")))))),
        )]),
        Definition::Interface {
            name: "Animal".to_string(),
            attributes: None,
            constructors: vec![],
            members: vec![],
        },
    ];
    let ci = ComponentInterface::from_definitions(&defns).unwrap();
    let animal = Type::Object("Animal".to_string());
    let sequence = Type::Sequence(Box::new(animal.clone()));
    let optional = Type::Optional(Box::new(sequence.clone()));
    assert_eq!(ci.iter_types(), vec![&animal, &sequence, &optional]);
    assert!(ci.contains_optional_types());
    assert!(ci.contains_sequence_types());
    assert!(!ci.contains_map_types());
    assert_eq!(ci.namespace(), "zoo");
}

#[test]
fn name_declared_twice_for_the_same_kind_fails_the_build() {
    let defns = vec![
        namespace("zoo", vec![]),
        Definition::Dictionary { name: "Cage".to_string(), fields: vec![] },
        Definition::Dictionary {
            name: "Cage".to_string(),
            fields: vec![field("size", named("u8"))],
        },
    ];
    assert_eq!(
        ComponentInterface::from_definitions(&defns).unwrap_err(),
        InterfaceError::DuplicateDefinition("Cage".to_string())
    );
}

#[test]
fn declarations_are_listed_by_kind() {
    let ci = ComponentInterface::from_definitions(&animal()).unwrap();
    assert_eq!(ci.object_definitions().len(), 1);
    assert_eq!(ci.object_definitions()[0].name(), "Animal");
    assert_eq!(ci.error_definitions().len(), 1);
    assert_eq!(ci.function_definitions().len(), 0);
    assert!(ci.get_function_definition("speak").is_none());
    assert!(ci.get_callback_interface_definition("Animal").is_none());
    assert!(ci.get_record_definition("Animal").is_none());
}
