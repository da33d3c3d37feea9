use uniffi_bindgen::config::{contains_key, fill_defaults, MergeWith};
use uniffi_bindgen::files::{classify, split_at_dot, strip_prefix, strip_suffix, FileNameError, MetadataFile};
use uniffi_bindgen::interface::{
    ComponentInterface, Function, Inconsistency, InterfaceError, Namespace, Type,
};
use uniffi_bindgen::metadata::{
    add_to_ci, check_supported, item_metadata, name_of_type, resolve_native_type, EnumMetadata,
    EnumSyntax, EnumVariantMetadata, ExportError, FnMetadata, FnParamMetadata, FnSyntax,
    ImplFnMetadata, ImplItemSyntax, ImplMetadata, ImplSyntax, ItemSyntax, Metadata,
    StructMetadata, StructSyntax, TypeSyntax,
};
use uniffi_bindgen::scaffolding::{
    gen_cargo_toml, Dependency, DependencyInfo, DependencyKind, ScaffoldingError,
};

fn function(name: &str, output: Option<&str>) -> FnMetadata {
    FnMetadata {
        module: "basics".to_string(),
        name: name.to_string(),
        inputs: vec![],
        output: output.map(|o| o.to_string()),
    }
}

fn named() -> ComponentInterface {
    let mut ci = ComponentInterface::new();
    assert!(ci.add_namespace_definition(Namespace::new("basics".to_string())).is_ok());
    ci
}

#[test]
fn a_function_is_made_of_its_metadata() {
    let meta = function("get_int", Some("i32"));
    assert!(meta.is_supported());
    let f = Function::from_metadata(&meta);
    assert_eq!(f.name(), "get_int");
    assert_eq!(f.arguments().len(), 0);
    assert_eq!(f.return_type(), Some(&Type::Int32));
    assert_eq!(f.ffi_func().name(), "__uniffi_get_int");
    assert_eq!(f.ffi_func().arguments().len(), 0);
    assert_eq!(f.ffi_func().return_type(), None);
    assert_eq!(f.throws(), None);
    let unit = Function::from_metadata(&function("pass", None));
    assert_eq!(unit.return_type(), None);
    assert_eq!(Function::from_metadata(&function("s", Some("String"))).return_type(), Some(&Type::String));
    assert_eq!(Function::from_metadata(&function("b", Some("bool"))).return_type(), Some(&Type::Boolean));
}

#[test]
fn metadata_names_native_types() {
    assert_eq!(resolve_native_type("u8"), Some(Type::UInt8));
    assert_eq!(resolve_native_type("u16"), Some(Type::UInt16));
    assert_eq!(resolve_native_type("u32"), Some(Type::UInt32));
    assert_eq!(resolve_native_type("u64"), Some(Type::UInt64));
    assert_eq!(resolve_native_type("i8"), Some(Type::Int8));
    assert_eq!(resolve_native_type("i16"), Some(Type::Int16));
    assert_eq!(resolve_native_type("i32"), Some(Type::Int32));
    assert_eq!(resolve_native_type("i64"), Some(Type::Int64));
    assert_eq!(resolve_native_type("f32"), Some(Type::Float32));
    assert_eq!(resolve_native_type("f64"), Some(Type::Float64));
    assert_eq!(resolve_native_type("bool"), Some(Type::Boolean));
    assert_eq!(resolve_native_type("String"), Some(Type::String));
    assert_eq!(resolve_native_type("string"), None);
}

#[test]
fn unsupported_metadata_is_told_apart() {
    assert!(!function("get", Some("Widget")).is_supported());
    let mut with_input = function("pass_string", None);
    with_input.inputs.push(FnParamMetadata::new());
    assert!(!with_input.is_supported());
    assert!(check_supported(&vec![Metadata::Func(function("a", None))]));
    assert!(!check_supported(&vec![
        Metadata::Func(function("a", None)),
        Metadata::Func(with_input)
    ]));
    assert!(check_supported(&vec![Metadata::Record(StructMetadata { name: "S".to_string() })]));
}

#[test]
fn metadata_is_added_in_any_order() {
    let items = |flip: bool| {
        let mut v = vec![
            Metadata::Func(function("get_string", Some("String"))),
            Metadata::Record(StructMetadata { name: "Point".to_string() }),
            Metadata::Enum(EnumMetadata {
                name: "Color".to_string(),
                variants: vec![
                    EnumVariantMetadata { name: "Red".to_string() },
                    EnumVariantMetadata { name: "Blue".to_string() },
                ],
            }),
            Metadata::Func(function("get_int", Some("i32"))),
        ];
        if flip {
            v.reverse();
        }
        v
    };
    let mut ci = named();
    assert!(add_to_ci(&mut ci, items(false)).is_ok());
    assert_eq!(ci.function_definitions().len(), 2);
    assert_eq!(ci.function_definitions()[0].name(), "get_string");
    assert_eq!(ci.get_record_definition("Point").unwrap().fields().len(), 0);
    let color = ci.get_enum_definition("Color").unwrap();
    assert!(color.is_flat());
    assert_eq!(color.variants()[1].name(), "Blue");
    assert_eq!(ci.get_type("Point"), Some(Type::Record("Point".to_string())));
    let symbol = format!("{}_get_int", ci.ffi_namespace());
    assert_eq!(ci.get_function_definition("get_int").unwrap().ffi_func().name(), symbol);
    let mut flipped = named();
    assert!(add_to_ci(&mut flipped, items(true)).is_ok());
    assert_eq!(flipped.function_definitions()[0].name(), "get_int");
    assert_eq!(flipped.record_definitions().len(), 1);
}

#[test]
fn metadata_that_collides_is_refused() {
    let mut ci = named();
    assert_eq!(
        add_to_ci(
            &mut ci,
            vec![
                Metadata::Func(function("Point", None)),
                Metadata::Record(StructMetadata { name: "Point".to_string() }),
            ]
        ),
        Err(InterfaceError::DuplicateDefinition("Point".to_string()))
    );
    let mut twice = named();
    assert_eq!(
        add_to_ci(
            &mut twice,
            vec![Metadata::Func(function("get", None)), Metadata::Func(function("get", None))]
        ),
        Err(InterfaceError::DuplicateDefinition("get".to_string()))
    );
    let mut kinds = named();
    assert_eq!(
        add_to_ci(
            &mut kinds,
            vec![
                Metadata::Record(StructMetadata { name: "Thing".to_string() }),
                Metadata::Enum(EnumMetadata { name: "Thing".to_string(), variants: vec![] }),
            ]
        ),
        Err(InterfaceError::DuplicateDefinition("Thing".to_string()))
    );
    let mut nameless = ComponentInterface::new();
    assert_eq!(
        add_to_ci(&mut nameless, vec![]),
        Err(InterfaceError::ConsistencyViolation(Inconsistency::MissingNamespace))
    );
    let mut shadowed = named();
    assert_eq!(
        add_to_ci(
            &mut shadowed,
            vec![
                Metadata::Enum(EnumMetadata {
                    name: "Kind".to_string(),
                    variants: vec![EnumVariantMetadata { name: "Point".to_string() }],
                }),
                Metadata::Record(StructMetadata { name: "Point".to_string() }),
            ]
        ),
        Err(InterfaceError::ConsistencyViolation(Inconsistency::ShadowedTypeName(
            "Point".to_string()
        )))
    );
}

fn path(ident: &str) -> TypeSyntax {
    TypeSyntax::Path { qualified: false, ident: Some(ident.to_string()) }
}

#[test]
fn a_type_is_named_by_its_identifier() {
    assert_eq!(name_of_type(&path("String")), Ok("String".to_string()));
    assert_eq!(
        name_of_type(&TypeSyntax::Group(Box::new(TypeSyntax::Group(Box::new(path("u8")))))),
        Ok("u8".to_string())
    );
    assert_eq!(
        name_of_type(&TypeSyntax::Path { qualified: true, ident: Some("T".to_string()) }),
        Err(ExportError::QualifiedSelf)
    );
    assert_eq!(
        name_of_type(&TypeSyntax::Path { qualified: false, ident: None }),
        Err(ExportError::NotAnIdentifier)
    );
    assert_eq!(name_of_type(&TypeSyntax::Other), Err(ExportError::UnsupportedType));
    assert_eq!(
        name_of_type(&TypeSyntax::Group(Box::new(TypeSyntax::Other))),
        Err(ExportError::UnsupportedType)
    );
}

#[test]
fn metadata_is_made_of_items() {
    let f = FnSyntax { name: "get_int".to_string(), inputs: 2, output: Some(path("i32")) };
    let meta = FnMetadata::new(&f, "basics").unwrap();
    assert_eq!(meta.module, "basics");
    assert_eq!(meta.name, "get_int");
    assert_eq!(meta.inputs.len(), 2);
    assert_eq!(meta.output, Some("i32".to_string()));
    assert_eq!(meta.file_name(), "mod.basics.fn.get_int.json");
    let unit = FnSyntax { name: "run".to_string(), inputs: 0, output: None };
    assert_eq!(FnMetadata::new(&unit, "m").unwrap().output, None);
    let bad = FnSyntax { name: "bad".to_string(), inputs: 0, output: Some(TypeSyntax::Other) };
    assert_eq!(FnMetadata::new(&bad, "m"), Err(ExportError::UnsupportedType));
    assert_eq!(ImplFnMetadata::new(&bad), Err(ExportError::UnsupportedType));
    let method = ImplFnMetadata::new(&f).unwrap();
    assert_eq!(method.name, "get_int");
    assert_eq!(method.inputs.len(), 2);
    assert_eq!(method.output, Some("i32".to_string()));

    let e = EnumMetadata::new(&EnumSyntax {
        name: "Color".to_string(),
        variants: vec!["Red".to_string(), "Blue".to_string()],
    });
    assert_eq!(e.name, "Color");
    assert_eq!(e.variants.len(), 2);
    assert_eq!(e.variants[1], EnumVariantMetadata::new("Blue"));
    assert_eq!(e.file_name(), "type.Color.json");
    assert_eq!(e.to_enum().variants()[0].name(), "Red");
    let s = StructMetadata::new(&StructSyntax { name: "Point".to_string() });
    assert_eq!(s.file_name(), "type.Point.json");
    assert_eq!(s.to_record().name(), "Point");
}

#[test]
fn metadata_of_an_impl_block_lists_its_methods() {
    let block = ImplSyntax {
        self_ty: path("Counter"),
        items: vec![
            ImplItemSyntax::Method(FnSyntax { name: "up".to_string(), inputs: 1, output: None }),
            ImplItemSyntax::Method(FnSyntax {
                name: "get".to_string(),
                inputs: 1,
                output: Some(path("u64")),
            }),
        ],
    };
    let meta = ImplMetadata::new(&block, "counting").unwrap();
    assert_eq!(meta.self_name, "Counter");
    assert_eq!(meta.fn_metadata.len(), 2);
    assert_eq!(meta.fn_metadata[1].output, Some("u64".to_string()));
    assert_eq!(
        meta.file_names(),
        vec![
            "mod.counting.impl.Counter.fn.up.json".to_string(),
            "mod.counting.impl.Counter.fn.get.json".to_string()
        ]
    );
    let with_const = ImplSyntax {
        self_ty: TypeSyntax::Other,
        items: vec![
            ImplItemSyntax::Method(FnSyntax { name: "up".to_string(), inputs: 1, output: None }),
            ImplItemSyntax::Other,
        ],
    };
    assert_eq!(ImplMetadata::new(&with_const, "m"), Err(ExportError::UnsupportedImplItem));
    let unnamed = ImplSyntax { self_ty: TypeSyntax::Other, items: vec![] };
    assert_eq!(ImplMetadata::new(&unnamed, "m"), Err(ExportError::UnsupportedType));
}

#[test]
fn items_leave_their_metadata() {
    let f = ItemSyntax::Fn(FnSyntax { name: "get".to_string(), inputs: 0, output: Some(path("u8")) });
    match item_metadata(&f, "basics") {
        Ok(Metadata::Func(meta)) => assert_eq!(meta.file_name(), "mod.basics.fn.get.json"),
        other => panic!("unexpected: {:?}", other),
    }
    assert!(matches!(
        item_metadata(&ItemSyntax::Struct(StructSyntax { name: "P".to_string() }), "m"),
        Ok(Metadata::Record(_))
    ));
    assert!(matches!(
        item_metadata(
            &ItemSyntax::Enum(EnumSyntax { name: "E".to_string(), variants: vec![] }),
            "m"
        ),
        Ok(Metadata::Enum(_))
    ));
    assert_eq!(
        item_metadata(
            &ItemSyntax::Impl(ImplSyntax { self_ty: path("T"), items: vec![] }),
            "m"
        ),
        Err(ExportError::ImplNotSupported)
    );
    assert_eq!(item_metadata(&ItemSyntax::Other, "m"), Err(ExportError::UnsupportedItem));
    assert_eq!(ExportError::ImplNotSupported.message(), "support for impl blocks coming soon");
}

#[test]
fn file_names_tell_what_the_files_hold() {
    assert_eq!(classify("mod.basics.fn.get_int.json"), Ok(MetadataFile::Function));
    assert_eq!(classify("mod.a$b.fn.f.json"), Ok(MetadataFile::Function));
    assert_eq!(classify("mod.basics.impl.Counter.fn.up.json"), Ok(MetadataFile::ImplFunction));
    assert_eq!(classify("mod.basics.type.json"), Ok(MetadataFile::Type));
    assert_eq!(classify("mod.basics.type.Point.json"), Ok(MetadataFile::Type));
    assert_eq!(classify("mod.basics.fn.get_int.toml"), Err(FileNameError::NotJson));
    assert_eq!(classify("json"), Err(FileNameError::NotJson));
    assert_eq!(classify("type.Point.json"), Err(FileNameError::NoModPrefix));
    assert_eq!(classify(".json"), Err(FileNameError::NoModPrefix));
    assert_eq!(classify("mod.basics.json"), Err(FileNameError::Unexpected));
    assert_eq!(classify("mod.basics.const.X.json"), Err(FileNameError::Unexpected));
    assert_eq!(classify("mod.basics.impl.json"), Err(FileNameError::MissingTypeName));
    assert_eq!(classify("mod.basics.impl.Counter.json"), Err(FileNameError::Unexpected));
    assert_eq!(classify("mod.basics.impl.Counter.type.json"), Err(FileNameError::Unexpected));
}

#[test]
fn texts_are_cut_at_dots_and_ends() {
    assert_eq!(split_at_dot("a.b.c"), ("a", Some("b.c")));
    assert_eq!(split_at_dot("abc"), ("abc", None));
    assert_eq!(split_at_dot(".x"), ("", Some("x")));
    assert_eq!(split_at_dot("x."), ("x", Some("")));
    assert_eq!(split_at_dot("é.ü"), ("é", Some("ü")));
    assert_eq!(strip_suffix("name.json", ".json"), Some("name"));
    assert_eq!(strip_suffix("name.json", ".toml"), None);
    assert_eq!(strip_suffix("on", ".json"), None);
    assert_eq!(strip_prefix("mod.rest", "mod."), Some("rest"));
    assert_eq!(strip_prefix("mode.rest", "mod."), None);
    assert_eq!(strip_prefix("mo", "mod."), None);
}

fn dependency(name: &str, kind: DependencyKind) -> DependencyInfo {
    DependencyInfo {
        name: name.to_string(),
        kind,
        req: "^0.19".to_string(),
        registry: None,
        path: Some("../uniffi".to_string()),
        features: vec!["builtin-bindgen".to_string()],
    }
}

#[test]
fn the_scaffolding_crate_depends_on_uniffi_as_the_component_does() {
    let deps = vec![
        dependency("serde", DependencyKind::Normal),
        dependency("uniffi", DependencyKind::Development),
        dependency("uniffi", DependencyKind::Normal),
    ];
    let manifest = gen_cargo_toml(&deps, "basics-ffi").unwrap();
    assert_eq!(manifest.package.name, "basics-ffi");
    assert_eq!(manifest.package.version, "0.0.0");
    assert_eq!(manifest.package.edition, "2021");
    assert!(!manifest.package.publish);
    assert_eq!(manifest.dependencies.len(), 1);
    assert_eq!(manifest.dependencies[0].0, "uniffi");
    match &manifest.dependencies[0].1 {
        Dependency::Extended(e) => {
            assert_eq!(e.version, Some("^0.19".to_string()));
            assert_eq!(e.path, Some("../uniffi".to_string()));
            assert_eq!(e.features, vec!["builtin-bindgen".to_string()]);
        }
        other => panic!("unexpected: {:?}", other),
    }
}

#[test]
fn the_scaffolding_crate_needs_one_plain_dependency_on_uniffi() {
    assert_eq!(
        gen_cargo_toml(&vec![dependency("serde", DependencyKind::Normal)], "x"),
        Err(ScaffoldingError::MissingDependency)
    );
    assert_eq!(
        gen_cargo_toml(&vec![dependency("uniffi", DependencyKind::Build)], "x"),
        Err(ScaffoldingError::MissingDependency)
    );
    assert_eq!(gen_cargo_toml(&vec![], "x"), Err(ScaffoldingError::MissingDependency));
    assert_eq!(
        gen_cargo_toml(
            &vec![
                dependency("uniffi", DependencyKind::Normal),
                dependency("uniffi", DependencyKind::Normal)
            ],
            "x"
        ),
        Err(ScaffoldingError::SeveralDependencies)
    );
    let mut own = dependency("uniffi", DependencyKind::Normal);
    own.registry = Some("https://example.org/index".to_string());
    assert_eq!(gen_cargo_toml(&vec![own], "x"), Err(ScaffoldingError::RegistryNotSupported));
    assert_eq!(
        ScaffoldingError::MissingDependency.message(),
        "crate doesn't depend on uniffi"
    );
}

#[test]
fn settings_fall_back_on_others() {
    assert_eq!(Some(1).merge_with(&Some(2)), Some(1));
    assert_eq!(Some(1).merge_with(&None), Some(1));
    assert_eq!(None.merge_with(&Some(2)), Some(2));
    assert_eq!(None::<u8>.merge_with(&None), None);
    assert_eq!(
        Some("mine".to_string()).merge_with(&Some("theirs".to_string())),
        Some("mine".to_string())
    );
}

#[test]
fn defaults_fill_what_a_table_leaves_open() {
    let mut table = toml::map::Map::new();
    table.insert("package_name".to_string(), toml::Value::String("mine".to_string()));
    fill_defaults(
        &mut table,
        vec![
            ("package_name".to_string(), toml::Value::String("default".to_string())),
            ("cdylib_name".to_string(), toml::Value::String("libzoo".to_string())),
            ("cdylib_name".to_string(), toml::Value::String("later".to_string())),
        ],
    );
    assert_eq!(table.len(), 2);
    assert_eq!(table.get("package_name"), Some(&toml::Value::String("mine".to_string())));
    assert_eq!(table.get("cdylib_name"), Some(&toml::Value::String("libzoo".to_string())));
    let mut empty = toml::map::Map::new();
    fill_defaults(&mut empty, vec![]);
    assert_eq!(empty.len(), 0);
}

#[test]
fn metadata_leaves_declarations_that_are_there() {
    let mut ci = named();
    assert!(ci.add_type_definition("Point", Type::Record("Point".to_string())).is_ok());
    assert!(add_to_ci(
        &mut ci,
        vec![
            Metadata::Record(StructMetadata { name: "Point".to_string() }),
            Metadata::Record(StructMetadata { name: "Point".to_string() }),
        ]
    )
    .is_ok());
    assert_eq!(ci.record_definitions().len(), 1);
}

#[test]
fn metadata_declares_error_families() {
    let mut ci = named();
    assert!(add_to_ci(
        &mut ci,
        vec![
            Metadata::Error(EnumMetadata {
                name: "Trouble".to_string(),
                variants: vec![EnumVariantMetadata { name: "Lost".to_string() }],
            }),
            Metadata::Func(function("get", None)),
        ]
    )
    .is_ok());
    let trouble = ci.get_error_definition("Trouble").unwrap();
    assert_eq!(trouble.variants().len(), 1);
    assert_eq!(trouble.variants()[0].name(), "Lost");
    assert!(trouble.is_flat());
    assert!(ci.get_enum_definition("Trouble").is_none());
    assert_eq!(ci.get_type("Trouble"), Some(Type::Error("Trouble".to_string())));
    let mut clash = named();
    assert_eq!(
        add_to_ci(
            &mut clash,
            vec![
                Metadata::Enum(EnumMetadata { name: "Trouble".to_string(), variants: vec![] }),
                Metadata::Error(EnumMetadata { name: "Trouble".to_string(), variants: vec![] }),
            ]
        ),
        Err(InterfaceError::DuplicateDefinition("Trouble".to_string()))
    );
}

#[test]
fn a_failed_check_derives_nothing() {
    // No namespace: every record is added, the check fails, nothing is derived.
    let mut ci = ComponentInterface::new();
    assert_eq!(
        add_to_ci(
            &mut ci,
            vec![
                Metadata::Func(function("get_int", Some("i32"))),
                Metadata::Record(StructMetadata { name: "Point".to_string() }),
            ]
        ),
        Err(InterfaceError::ConsistencyViolation(Inconsistency::MissingNamespace))
    );
    assert_eq!(ci.record_definitions().len(), 1);
    let f = ci.get_function_definition("get_int").unwrap();
    assert_eq!(f.ffi_func().name(), "__uniffi_get_int");
    assert_eq!(f.ffi_func().return_type(), None);

    // A variant that shadows a type: the same.
    let mut shadowed = named();
    assert!(add_to_ci(&mut shadowed, vec![Metadata::Func(function("first", None))]).is_ok());
    let derived = shadowed.get_function_definition("first").unwrap().ffi_func().name().to_string();
    assert_eq!(
        add_to_ci(
            &mut shadowed,
            vec![
                Metadata::Func(function("second", None)),
                Metadata::Enum(EnumMetadata {
                    name: "Kind".to_string(),
                    variants: vec![EnumVariantMetadata { name: "Point".to_string() }],
                }),
                Metadata::Record(StructMetadata { name: "Point".to_string() }),
            ]
        ),
        Err(InterfaceError::ConsistencyViolation(Inconsistency::ShadowedTypeName(
            "Point".to_string()
        )))
    );
    assert_eq!(
        shadowed.get_function_definition("first").unwrap().ffi_func().name(),
        derived
    );
    assert_eq!(
        shadowed.get_function_definition("second").unwrap().ffi_func().name(),
        "__uniffi_second"
    );
}

#[test]
fn a_failing_record_changes_nothing() {
    let mut ci = named();
    assert_eq!(
        add_to_ci(
            &mut ci,
            vec![
                Metadata::Record(StructMetadata { name: "Point".to_string() }),
                Metadata::Enum(EnumMetadata { name: "Point".to_string(), variants: vec![] }),
                Metadata::Record(StructMetadata { name: "Line".to_string() }),
                Metadata::Func(function("get", None)),
            ]
        ),
        Err(InterfaceError::DuplicateDefinition("Point".to_string()))
    );
    // What came before the failing record is there; what came after is not.
    assert_eq!(ci.record_definitions().len(), 1);
    assert_eq!(ci.enum_definitions().len(), 0);
    assert_eq!(ci.function_definitions().len(), 0);
    assert_eq!(ci.get_type("Line"), None);

    let mut twice = named();
    assert_eq!(
        add_to_ci(
            &mut twice,
            vec![
                Metadata::Func(function("get", None)),
                Metadata::Func(function("get", Some("u8"))),
                Metadata::Func(function("put", None)),
            ]
        ),
        Err(InterfaceError::DuplicateDefinition("get".to_string()))
    );
    assert_eq!(twice.function_definitions().len(), 1);
    assert_eq!(twice.function_definitions()[0].return_type(), None);
    assert_eq!(twice.function_definitions()[0].ffi_func().name(), "__uniffi_get");
}

#[test]
fn tables_of_settings_are_merged_by_key() {
    let mine = vec![("a".to_string(), 1), ("b".to_string(), 2)];
    let theirs = vec![("b".to_string(), 20), ("c".to_string(), 30), ("a".to_string(), 10)];
    assert_eq!(
        mine.merge_with(&theirs),
        vec![("a".to_string(), 1), ("b".to_string(), 2), ("c".to_string(), 30)]
    );
    assert_eq!(Vec::<(String, u8)>::new().merge_with(&Vec::new()), vec![]);
    assert_eq!(theirs.merge_with(&Vec::new()), theirs);
    assert_eq!(Vec::new().merge_with(&mine), mine);
    assert!(contains_key(&mine, "a"));
    assert!(!contains_key(&mine, "c"));
}
