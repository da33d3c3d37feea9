//! Building an interface from its declarations.
//!
//! The build runs in passes, each over all declarations in the order in which
//! they were written. The first pass discovers the names that the declarations
//! introduce. The second fills in the declarations; the types that it resolves
//! may name any declaration, also one that is written further down. Then the
//! interface is checked as a whole, and last its low-level functions are derived.
//! The first failure ends the build: there is no partial interface.

use vstd::prelude::*;
use crate::attributes::{
    accept_all, crate_of, name_of, ArgumentAttributes, AttributeModel, AttributeTarget,
    ConstructorAttributes, EnumAttributes, FunctionAttributes, InterfaceAttributes,
    MethodAttributes, TypedefAttributes,
};
use crate::callbacks::{CallbackInterface, CallbackInterfaceModel};
use crate::enum_::{variant_models, Enum, EnumModel, Variant, VariantModel};
use crate::error::{Error, ErrorModel};
use crate::failure::{Failure, InterfaceError};
use crate::ffi::{FFIFunction, FFIFunctionModel};
use crate::fold::{
    lemma_try_each_done, lemma_try_each_failure, lemma_try_each_step, lemma_try_fold_done,
    lemma_try_fold_failure, lemma_try_fold_step, try_each, try_fold, views,
};
use crate::function::{argument_models, Argument, ArgumentModel, Function, FunctionModel};
use crate::interface::{ComponentInterface, InterfaceModel, Namespace};
use crate::literal::{clone_default, default_model};
use crate::object::{
    constructor_models, method_models, Constructor, ConstructorModel, Method, MethodModel,
    Object, ObjectModel,
};
use crate::record::{field_models, Field, FieldModel, Record, RecordModel};
use crate::syntax::{ArgumentNode, ConstructorNode, Definition, FieldNode, OperationNode};
use crate::types::{optional_model, resolve_builtin_type, Type, TypeModel};
use crate::universe::{binding, register, resolve, TypeExpr, TypeUniverse, UniverseModel};

verus! {

/// The registry after `name` was bound to `t`: as it was, with `t` recorded as
/// seen, where the name is bound to `t` already; with the new binding, where the
/// name was free; a failure where the name is bound to another type.
pub open spec fn bind(u: UniverseModel, name: Seq<char>, t: TypeModel) -> Result<
    UniverseModel,
    Failure,
> {
    match binding(u.definitions, name) {
        Some(bound) => if bound == t {
            Ok(UniverseModel { known: register(u.known, t), ..u })
        } else {
            Err(Failure::DuplicateDefinition(name))
        },
        None => Ok(
            UniverseModel {
                definitions: u.definitions.insert(name, t),
                known: register(u.known, t),
            },
        ),
    }
}

/// The registry after a declaration has introduced `name` for `t`: the name is
/// bound to the type, and the type is recorded as seen. A declaration cannot
/// introduce a name that is bound already, be it built in or declared before.
pub open spec fn declare(u: UniverseModel, name: Seq<char>, t: TypeModel) -> Result<
    UniverseModel,
    Failure,
> {
    match binding(u.definitions, name) {
        Some(_) => Err(Failure::DuplicateDefinition(name)),
        None => bind(u, name, t),
    }
}

/// The type that an expression denotes, with the registry after the type was
/// recorded as seen.
pub open spec fn resolved(u: UniverseModel, expr: TypeExpr) -> Result<
    (TypeModel, UniverseModel),
    Failure,
> {
    match resolve(u.definitions, expr) {
        Ok(t) => Ok((t, UniverseModel { known: register(u.known, t), ..u })),
        Err(f) => Err(f),
    }
}

/// The optional type that an optional expression denotes.
pub open spec fn resolved_optional(u: UniverseModel, expr: Option<TypeExpr>) -> Result<
    (Option<TypeModel>, UniverseModel),
    Failure,
> {
    match expr {
        None => Ok((None, u)),
        Some(e) => match resolved(u, e) {
            Ok((t, u)) => Ok((Some(t), u)),
            Err(f) => Err(f),
        },
    }
}

/// What the first pass does with one declaration: it binds the name that the
/// declaration introduces to the type that its kind and its attributes give.
pub open spec fn discover_step(u: UniverseModel, d: Definition) -> Result<UniverseModel, Failure> {
    match d {
        Definition::Namespace { name, functions } => Ok(u),
        Definition::Dictionary { name, fields } => declare(u, name@, TypeModel::Record(name@)),
        Definition::Enum { name, attributes, variants } => match accept_all(
            AttributeTarget::Enum,
            attributes,
        ) {
            Err(f) => Err(f),
            Ok(attrs) => if attrs.contains(AttributeModel::Error) {
                declare(u, name@, TypeModel::Error(name@))
            } else {
                declare(u, name@, TypeModel::Enum(name@))
            },
        },
        Definition::Interface { name, attributes, constructors, members } => match accept_all(
            AttributeTarget::Interface,
            attributes,
        ) {
            Err(f) => Err(f),
            Ok(attrs) => if attrs.contains(AttributeModel::Enum) {
                declare(u, name@, TypeModel::Enum(name@))
            } else if attrs.contains(AttributeModel::Error) {
                declare(u, name@, TypeModel::Error(name@))
            } else {
                declare(u, name@, TypeModel::Object(name@))
            },
        },
        Definition::CallbackInterface { name, methods } => declare(
            u,
            name@,
            TypeModel::CallbackInterface(name@),
        ),
        Definition::Typedef { name, attributes, type_ } => match accept_all(
            AttributeTarget::Typedef,
            attributes,
        ) {
            Err(f) => Err(f),
            Ok(attrs) => if attrs.contains(AttributeModel::Custom) {
                match resolved(u, type_) {
                    Err(f) => Err(f),
                    Ok((t, u)) => declare(
                        u,
                        name@,
                        TypeModel::Custom { name: name@, builtin: Box::new(t) },
                    ),
                }
            } else {
                match crate_of(attrs) {
                    Some(c) => declare(
                        u,
                        name@,
                        TypeModel::External { name: name@, crate_name: c },
                    ),
                    None => Err(Failure::UnsupportedAttribute(name@)),
                }
            },
        },
    }
}

/// The registry after the first pass.
pub open spec fn discover(u: UniverseModel, defns: Seq<Definition>) -> Result<
    UniverseModel,
    Failure,
> {
    try_each(u, defns, |u: UniverseModel, d: Definition| discover_step(u, d))
}

/// The argument that a node declares.
pub open spec fn argument_of(u: UniverseModel, node: ArgumentNode) -> Result<
    (ArgumentModel, UniverseModel),
    Failure,
> {
    match resolved(u, node.type_) {
        Err(f) => Err(f),
        Ok((t, u)) => match accept_all(AttributeTarget::Argument, node.attributes) {
            Err(f) => Err(f),
            Ok(attrs) => Ok(
                (
                    ArgumentModel {
                        name: node.name@,
                        type_: t,
                        by_ref: attrs.contains(AttributeModel::ByRef),
                        optional: node.optional,
                        default: default_model(node.default),
                    },
                    u,
                ),
            ),
        },
    }
}

/// The arguments that a list of nodes declares.
pub open spec fn arguments_of(u: UniverseModel, nodes: Seq<ArgumentNode>) -> Result<
    (Seq<ArgumentModel>, UniverseModel),
    Failure,
> {
    try_fold(u, nodes, |u: UniverseModel, n: ArgumentNode| argument_of(u, n))
}

/// The function that an operation of a namespace declares: its result is
/// resolved first, then its arguments, then its attributes are read.
pub open spec fn function_of(u: UniverseModel, node: OperationNode) -> Result<
    (FunctionModel, UniverseModel),
    Failure,
> {
    match resolved_optional(u, node.return_type) {
        Err(f) => Err(f),
        Ok((return_type, u)) => match arguments_of(u, node.arguments@) {
            Err(f) => Err(f),
            Ok((arguments, u)) => match accept_all(AttributeTarget::Function, node.attributes) {
                Err(f) => Err(f),
                Ok(attributes) => Ok(
                    (
                        FunctionModel {
                            name: node.name@,
                            arguments,
                            return_type,
                            ffi_func: FFIFunctionModel::empty(),
                            attributes,
                        },
                        u,
                    ),
                ),
            },
        },
    }
}

/// The functions that the operations of a namespace declare.
pub open spec fn functions_of(u: UniverseModel, nodes: Seq<OperationNode>) -> Result<
    (Seq<FunctionModel>, UniverseModel),
    Failure,
> {
    try_fold(u, nodes, |u: UniverseModel, n: OperationNode| function_of(u, n))
}

/// The method that an operation of the interface `object` declares: its result
/// is resolved first, then its arguments, then its attributes are read.
pub open spec fn method_of(u: UniverseModel, object: Seq<char>, node: OperationNode) -> Result<
    (MethodModel, UniverseModel),
    Failure,
> {
    match resolved_optional(u, node.return_type) {
        Err(f) => Err(f),
        Ok((return_type, u)) => match arguments_of(u, node.arguments@) {
            Err(f) => Err(f),
            Ok((arguments, u)) => match accept_all(AttributeTarget::Method, node.attributes) {
                Err(f) => Err(f),
                Ok(attributes) => Ok(
                    (
                        MethodModel {
                            name: node.name@,
                            object_name: object,
                            return_type,
                            arguments,
                            ffi_func: FFIFunctionModel::empty(),
                            attributes,
                        },
                        u,
                    ),
                ),
            },
        },
    }
}

/// The methods that the operations of the interface `object` declare.
pub open spec fn methods_of(u: UniverseModel, object: Seq<char>, nodes: Seq<OperationNode>)
    -> Result<(Seq<MethodModel>, UniverseModel), Failure> {
    try_fold(u, nodes, |u: UniverseModel, n: OperationNode| method_of(u, object, n))
}

/// The constructor that a node declares: its attributes are read first, and give
/// it its name, which is `new` where they give none; then its arguments are resolved.
pub open spec fn constructor_of(u: UniverseModel, node: ConstructorNode) -> Result<
    (ConstructorModel, UniverseModel),
    Failure,
> {
    match accept_all(AttributeTarget::Constructor, node.attributes) {
        Err(f) => Err(f),
        Ok(attributes) => match arguments_of(u, node.arguments@) {
            Err(f) => Err(f),
            Ok((arguments, u)) => Ok(
                (
                    ConstructorModel {
                        name: match name_of(attributes) {
                            Some(n) => n,
                            None => "new"@,
                        },
                        arguments,
                        ffi_func: FFIFunctionModel::empty(),
                        attributes,
                    },
                    u,
                ),
            ),
        },
    }
}

/// The constructors that a list of nodes declares.
pub open spec fn constructors_of(u: UniverseModel, nodes: Seq<ConstructorNode>) -> Result<
    (Seq<ConstructorModel>, UniverseModel),
    Failure,
> {
    try_fold(u, nodes, |u: UniverseModel, n: ConstructorNode| constructor_of(u, n))
}

/// The field that a node of a dictionary declares.
pub open spec fn field_of(u: UniverseModel, node: FieldNode) -> Result<
    (FieldModel, UniverseModel),
    Failure,
> {
    match resolved(u, node.type_) {
        Err(f) => Err(f),
        Ok((t, u)) => Ok(
            (
                FieldModel {
                    name: node.name@,
                    type_: t,
                    required: node.required,
                    default: default_model(node.default),
                },
                u,
            ),
        ),
    }
}

/// The fields that the nodes of a dictionary declare.
pub open spec fn fields_of(u: UniverseModel, nodes: Seq<FieldNode>) -> Result<
    (Seq<FieldModel>, UniverseModel),
    Failure,
> {
    try_fold(u, nodes, |u: UniverseModel, n: FieldNode| field_of(u, n))
}

/// The field that an argument of a variant of a tagged union declares: it has
/// the name and the type of the argument, is not required and has no default.
pub open spec fn variant_field_of(u: UniverseModel, node: ArgumentNode) -> Result<
    (FieldModel, UniverseModel),
    Failure,
> {
    match resolved(u, node.type_) {
        Err(f) => Err(f),
        Ok((t, u)) => Ok(
            (FieldModel { name: node.name@, type_: t, required: false, default: None }, u),
        ),
    }
}

/// The fields that the arguments of a variant of a tagged union declare.
pub open spec fn variant_fields_of(u: UniverseModel, nodes: Seq<ArgumentNode>) -> Result<
    (Seq<FieldModel>, UniverseModel),
    Failure,
> {
    try_fold(u, nodes, |u: UniverseModel, n: ArgumentNode| variant_field_of(u, n))
}

/// The variant that a member of a tagged union declares: it has the name of the
/// member, and a field for each of its arguments.
pub open spec fn variant_of(u: UniverseModel, node: OperationNode) -> Result<
    (VariantModel, UniverseModel),
    Failure,
> {
    match variant_fields_of(u, node.arguments@) {
        Err(f) => Err(f),
        Ok((fields, u)) => Ok((VariantModel { name: node.name@, fields }, u)),
    }
}

/// The variants that the members of a tagged union declare.
pub open spec fn variants_of(u: UniverseModel, nodes: Seq<OperationNode>) -> Result<
    (Seq<VariantModel>, UniverseModel),
    Failure,
> {
    try_fold(u, nodes, |u: UniverseModel, n: OperationNode| variant_of(u, n))
}

/// The enum that a tagged union declares.
pub open spec fn union_of(u: UniverseModel, name: Seq<char>, members: Seq<OperationNode>)
    -> Result<(EnumModel, UniverseModel), Failure> {
    match variants_of(u, members) {
        Err(f) => Err(f),
        Ok((variants, u)) => Ok((EnumModel { name, variants }, u)),
    }
}

/// The enum that a list of variants without fields declares.
pub open spec fn flat_enum_of(name: Seq<char>, variants: Seq<String>) -> EnumModel {
    EnumModel {
        name,
        variants: variants.map_values(
            |v: String| VariantModel { name: v@, fields: Seq::empty() },
        ),
    }
}

/// The object that an interface declares: its constructors are filled in
/// first, then its methods.
pub open spec fn object_of(
    u: UniverseModel,
    name: Seq<char>,
    threadsafe: bool,
    constructors: Seq<ConstructorNode>,
    members: Seq<OperationNode>,
) -> Result<(ObjectModel, UniverseModel), Failure> {
    match constructors_of(u, constructors) {
        Err(f) => Err(f),
        Ok((constructors, u)) => match methods_of(u, name, members) {
            Err(f) => Err(f),
            Ok((methods, u)) => Ok(
                (
                    ObjectModel {
                        name,
                        constructors,
                        methods,
                        ffi_func_free: FFIFunctionModel::empty(),
                        uses_deprecated_threadsafe_attribute: threadsafe,
                    },
                    u,
                ),
            ),
        },
    }
}

/// The interface after a function was added, or the failure where the function
/// bears the name of another function or of a declared type.
pub open spec fn with_function(m: InterfaceModel, f: FunctionModel) -> Result<
    InterfaceModel,
    Failure,
> {
    if m.function_collides(f.name) {
        Err(Failure::DuplicateDefinition(f.name))
    } else {
        Ok(InterfaceModel { functions: m.functions.push(f), ..m })
    }
}

/// The interface after a namespace was declared, or the failure where it has one already.
pub open spec fn with_namespace(m: InterfaceModel, name: Seq<char>) -> Result<
    InterfaceModel,
    Failure,
> {
    if m.namespace.len() > 0 {
        Err(Failure::DuplicateDefinition(name))
    } else {
        Ok(InterfaceModel { namespace: name, ..m })
    }
}

/// What the second pass does with one declaration: it fills the declaration in
/// and adds it to the interface.
pub open spec fn detail_step(m: InterfaceModel, d: Definition) -> Result<InterfaceModel, Failure> {
    match d {
        Definition::Namespace { name, functions } => match with_namespace(m, name@) {
            Err(f) => Err(f),
            Ok(m) => match functions_of(m.types, functions@) {
                Err(f) => Err(f),
                Ok((fs, u)) => try_each(
                    InterfaceModel { types: u, ..m },
                    fs,
                    |m: InterfaceModel, f: FunctionModel| with_function(m, f),
                ),
            },
        },
        Definition::Dictionary { name, fields } => match fields_of(m.types, fields@) {
            Err(f) => Err(f),
            Ok((fields, u)) => Ok(
                InterfaceModel {
                    types: u,
                    records: m.records.push(RecordModel { name: name@, fields }),
                    ..m
                },
            ),
        },
        Definition::Enum { name, attributes, variants } => match accept_all(
            AttributeTarget::Enum,
            attributes,
        ) {
            Err(f) => Err(f),
            Ok(attrs) => if attrs.contains(AttributeModel::Error) {
                Ok(
                    InterfaceModel {
                        errors: m.errors.push(ErrorModel { enum_: flat_enum_of(name@, variants@) }),
                        ..m
                    },
                )
            } else {
                Ok(InterfaceModel { enums: m.enums.push(flat_enum_of(name@, variants@)), ..m })
            },
        },
        Definition::Interface { name, attributes, constructors, members } => match accept_all(
            AttributeTarget::Interface,
            attributes,
        ) {
            Err(f) => Err(f),
            Ok(attrs) => if attrs.contains(AttributeModel::Enum) {
                match union_of(m.types, name@, members@) {
                    Err(f) => Err(f),
                    Ok((e, u)) => Ok(InterfaceModel { types: u, enums: m.enums.push(e), ..m }),
                }
            } else if attrs.contains(AttributeModel::Error) {
                match union_of(m.types, name@, members@) {
                    Err(f) => Err(f),
                    Ok((e, u)) => Ok(
                        InterfaceModel {
                            types: u,
                            errors: m.errors.push(ErrorModel { enum_: e }),
                            ..m
                        },
                    ),
                }
            } else {
                match object_of(
                    m.types,
                    name@,
                    attrs.contains(AttributeModel::Threadsafe),
                    constructors@,
                    members@,
                ) {
                    Err(f) => Err(f),
                    Ok((o, u)) => Ok(InterfaceModel { types: u, objects: m.objects.push(o), ..m }),
                }
            },
        },
        Definition::CallbackInterface { name, methods } => match methods_of(
            m.types,
            name@,
            methods@,
        ) {
            Err(f) => Err(f),
            Ok((methods, u)) => Ok(
                InterfaceModel {
                    types: u,
                    callback_interfaces: m.callback_interfaces.push(
                        CallbackInterfaceModel {
                            name: name@,
                            methods,
                            ffi_init_callback: FFIFunctionModel::empty(),
                        },
                    ),
                    ..m
                },
            ),
        },
        Definition::Typedef { name, attributes, type_ } => Ok(m),
    }
}

/// The interface after the second pass.
pub open spec fn detail(m: InterfaceModel, defns: Seq<Definition>) -> Result<
    InterfaceModel,
    Failure,
> {
    try_each(m, defns, |m: InterfaceModel, d: Definition| detail_step(m, d))
}

/// An interface of the version `version` with the registry `types` and nothing else.
pub open spec fn blank(version: Seq<char>, types: UniverseModel) -> InterfaceModel {
    InterfaceModel {
        uniffi_version: version,
        types,
        namespace: Seq::empty(),
        enums: Seq::empty(),
        records: Seq::empty(),
        functions: Seq::empty(),
        objects: Seq::empty(),
        callback_interfaces: Seq::empty(),
        errors: Seq::empty(),
    }
}

/// The interface that a list of declarations describes, or the first failure of
/// its build: names are discovered, declarations are filled in, the whole is
/// checked, and the low-level functions are derived.
pub open spec fn build(version: Seq<char>, defns: Seq<Definition>) -> Result<
    InterfaceModel,
    Failure,
> {
    match discover(UniverseModel { definitions: Map::empty(), known: Seq::empty() }, defns) {
        Err(f) => Err(f),
        Ok(u) => match detail(blank(version, u), defns) {
            Err(f) => Err(f),
            Ok(m) => match m.inconsistency() {
                Some(i) => Err(Failure::ConsistencyViolation(i)),
                None => Ok(m.derived()),
            },
        },
    }
}


/// Resolves an optional type expression.
fn convert_optional(types: &mut TypeUniverse, expr: &Option<TypeExpr>) -> (r: Result<
    Option<Type>,
    InterfaceError,
>)
    requires
        old(types).wf(),
    ensures
        final(types).wf(),
        final(types)@.definitions == old(types)@.definitions,
        match resolved_optional(old(types)@, *expr) {
            Ok((item, u)) => r is Ok && optional_model(r->Ok_0) == item && final(types)@ == u,
            Err(f) => r is Err && r->Err_0@ == f,
        },
{
    match expr {
        None => Ok(None),
        Some(e) => match types.resolve_type_expression(e) {
            Ok(t) => Ok(Some(t)),
            Err(f) => Err(f),
        },
    }
}

/// Fills in an argument.
fn convert_argument(types: &mut TypeUniverse, node: &ArgumentNode) -> (r: Result<
    Argument,
    InterfaceError,
>)
    requires
        old(types).wf(),
    ensures
        final(types).wf(),
        final(types)@.definitions == old(types)@.definitions,
        match argument_of(old(types)@, *node) {
            Ok((item, u)) => r is Ok && r->Ok_0@ == item && final(types)@ == u,
            Err(f) => r is Err && r->Err_0@ == f,
        },
{
    let type_ = match types.resolve_type_expression(&node.type_) {
        Ok(t) => t,
        Err(f) => {
            return Err(f);
        },
    };
    let attributes = match ArgumentAttributes::try_from(&node.attributes) {
        Ok(a) => a,
        Err(f) => {
            return Err(f);
        },
    };
    Ok(
        Argument {
            name: node.name.clone(),
            type_,
            by_ref: attributes.by_ref(),
            optional: node.optional,
            default: clone_default(&node.default),
        },
    )
}

/// Fills in a list of arguments.
fn convert_arguments(types: &mut TypeUniverse, nodes: &Vec<ArgumentNode>) -> (r: Result<
    Vec<Argument>,
    InterfaceError,
>)
    requires
        old(types).wf(),
    ensures
        final(types).wf(),
        final(types)@.definitions == old(types)@.definitions,
        match arguments_of(old(types)@, nodes@) {
            Ok((items, u)) => r is Ok && argument_models(r->Ok_0@) == items && final(types)@ == u,
            Err(f) => r is Err && r->Err_0@ == f,
        },
{
    let ghost start = types@;
    let ghost step = |u: UniverseModel, n: ArgumentNode| argument_of(u, n);
    let mut out: Vec<Argument> = Vec::new();
    let mut i: usize = 0;
    proof {
        lemma_try_fold_done(start, nodes@, step);
        assert(argument_models(out@) =~= Seq::empty());
    }
    while i < nodes.len()
        invariant
            i <= nodes@.len(),
            types.wf(),
            start == old(types)@,
            types@.definitions == start.definitions,
            step == (|u: UniverseModel, n: ArgumentNode| argument_of(u, n)),
            arguments_of(start, nodes@) == try_fold(start, nodes@, step),
            try_fold(start, nodes@.take(i as int), step) == Ok::<
                (Seq<ArgumentModel>, UniverseModel),
                Failure,
            >((argument_models(out@), types@)),
        decreases nodes@.len() - i,
    {
        proof {
            lemma_try_fold_step(start, nodes@, step, i as int);
        }
        let ghost before = argument_models(out@);
        match convert_argument(types, &nodes[i]) {
            Ok(item) => {
                let ghost added = item@;
                out.push(item);
                assert(argument_models(out@) =~= before.push(added));
            },
            Err(f) => {
                proof {
                    lemma_try_fold_failure(start, nodes@, step, i as int + 1);
                }
                return Err(f);
            },
        }
        i += 1;
    }
    proof {
        lemma_try_fold_done(start, nodes@, step);
    }
    Ok(out)
}

/// Fills in a function of a namespace.
fn convert_function(types: &mut TypeUniverse, node: &OperationNode) -> (r: Result<
    Function,
    InterfaceError,
>)
    requires
        old(types).wf(),
    ensures
        final(types).wf(),
        final(types)@.definitions == old(types)@.definitions,
        match function_of(old(types)@, *node) {
            Ok((item, u)) => r is Ok && r->Ok_0@ == item && final(types)@ == u,
            Err(f) => r is Err && r->Err_0@ == f,
        },
{
    let return_type = match convert_optional(types, &node.return_type) {
        Ok(t) => t,
        Err(f) => {
            return Err(f);
        },
    };
    let arguments = match convert_arguments(types, &node.arguments) {
        Ok(a) => a,
        Err(f) => {
            return Err(f);
        },
    };
    let attributes = match FunctionAttributes::try_from(&node.attributes) {
        Ok(a) => a,
        Err(f) => {
            return Err(f);
        },
    };
    Ok(
        Function {
            name: node.name.clone(),
            arguments,
            return_type,
            ffi_func: FFIFunction::default(),
            attributes,
        },
    )
}

/// Fills in the functions of a namespace.
fn convert_functions(types: &mut TypeUniverse, nodes: &Vec<OperationNode>) -> (r: Result<
    Vec<Function>,
    InterfaceError,
>)
    requires
        old(types).wf(),
    ensures
        final(types).wf(),
        final(types)@.definitions == old(types)@.definitions,
        match functions_of(old(types)@, nodes@) {
            Ok((items, u)) => r is Ok && views(r->Ok_0@) == items && final(types)@ == u,
            Err(f) => r is Err && r->Err_0@ == f,
        },
{
    let ghost start = types@;
    let ghost step = |u: UniverseModel, n: OperationNode| function_of(u, n);
    let mut out: Vec<Function> = Vec::new();
    let mut i: usize = 0;
    proof {
        lemma_try_fold_done(start, nodes@, step);
        assert(views(out@) =~= Seq::empty());
    }
    while i < nodes.len()
        invariant
            i <= nodes@.len(),
            types.wf(),
            start == old(types)@,
            types@.definitions == start.definitions,
            step == (|u: UniverseModel, n: OperationNode| function_of(u, n)),
            functions_of(start, nodes@) == try_fold(start, nodes@, step),
            try_fold(start, nodes@.take(i as int), step) == Ok::<
                (Seq<FunctionModel>, UniverseModel),
                Failure,
            >((views(out@), types@)),
        decreases nodes@.len() - i,
    {
        proof {
            lemma_try_fold_step(start, nodes@, step, i as int);
        }
        let ghost before = views(out@);
        match convert_function(types, &nodes[i]) {
            Ok(item) => {
                let ghost added = item@;
                out.push(item);
                assert(views(out@) =~= before.push(added));
            },
            Err(f) => {
                proof {
                    lemma_try_fold_failure(start, nodes@, step, i as int + 1);
                }
                return Err(f);
            },
        }
        i += 1;
    }
    proof {
        lemma_try_fold_done(start, nodes@, step);
    }
    Ok(out)
}

/// Fills in a method of the interface named `object`.
fn convert_method(types: &mut TypeUniverse, object: &str, node: &OperationNode) -> (r: Result<
    Method,
    InterfaceError,
>)
    requires
        old(types).wf(),
    ensures
        final(types).wf(),
        final(types)@.definitions == old(types)@.definitions,
        match method_of(old(types)@, object@, *node) {
            Ok((item, u)) => r is Ok && r->Ok_0@ == item && final(types)@ == u,
            Err(f) => r is Err && r->Err_0@ == f,
        },
{
    let return_type = match convert_optional(types, &node.return_type) {
        Ok(t) => t,
        Err(f) => {
            return Err(f);
        },
    };
    let arguments = match convert_arguments(types, &node.arguments) {
        Ok(a) => a,
        Err(f) => {
            return Err(f);
        },
    };
    let attributes = match MethodAttributes::try_from(&node.attributes) {
        Ok(a) => a,
        Err(f) => {
            return Err(f);
        },
    };
    Ok(
        Method {
            name: node.name.clone(),
            object_name: object.to_owned(),
            return_type,
            arguments,
            ffi_func: FFIFunction::default(),
            attributes,
        },
    )
}

/// Fills in the methods of the interface named `object`.
fn convert_methods(types: &mut TypeUniverse, object: &str, nodes: &Vec<OperationNode>) -> (r: Result<
    Vec<Method>,
    InterfaceError,
>)
    requires
        old(types).wf(),
    ensures
        final(types).wf(),
        final(types)@.definitions == old(types)@.definitions,
        match methods_of(old(types)@, object@, nodes@) {
            Ok((items, u)) => r is Ok && method_models(r->Ok_0@) == items && final(types)@ == u,
            Err(f) => r is Err && r->Err_0@ == f,
        },
{
    let ghost start = types@;
    let ghost step = |u: UniverseModel, n: OperationNode| method_of(u, object@, n);
    let mut out: Vec<Method> = Vec::new();
    let mut i: usize = 0;
    proof {
        lemma_try_fold_done(start, nodes@, step);
        assert(method_models(out@) =~= Seq::empty());
    }
    while i < nodes.len()
        invariant
            i <= nodes@.len(),
            types.wf(),
            start == old(types)@,
            types@.definitions == start.definitions,
            step == (|u: UniverseModel, n: OperationNode| method_of(u, object@, n)),
            methods_of(start, object@, nodes@) == try_fold(start, nodes@, step),
            try_fold(start, nodes@.take(i as int), step) == Ok::<
                (Seq<MethodModel>, UniverseModel),
                Failure,
            >((method_models(out@), types@)),
        decreases nodes@.len() - i,
    {
        proof {
            lemma_try_fold_step(start, nodes@, step, i as int);
        }
        let ghost before = method_models(out@);
        match convert_method(types, object, &nodes[i]) {
            Ok(item) => {
                let ghost added = item@;
                out.push(item);
                assert(method_models(out@) =~= before.push(added));
            },
            Err(f) => {
                proof {
                    lemma_try_fold_failure(start, nodes@, step, i as int + 1);
                }
                return Err(f);
            },
        }
        i += 1;
    }
    proof {
        lemma_try_fold_done(start, nodes@, step);
    }
    Ok(out)
}

/// Fills in a constructor.
fn convert_constructor(types: &mut TypeUniverse, node: &ConstructorNode) -> (r: Result<
    Constructor,
    InterfaceError,
>)
    requires
        old(types).wf(),
    ensures
        final(types).wf(),
        final(types)@.definitions == old(types)@.definitions,
        match constructor_of(old(types)@, *node) {
            Ok((item, u)) => r is Ok && r->Ok_0@ == item && final(types)@ == u,
            Err(f) => r is Err && r->Err_0@ == f,
        },
{
    let attributes = match ConstructorAttributes::try_from(&node.attributes) {
        Ok(a) => a,
        Err(f) => {
            return Err(f);
        },
    };
    let arguments = match convert_arguments(types, &node.arguments) {
        Ok(a) => a,
        Err(f) => {
            return Err(f);
        },
    };
    let name = match attributes.get_name() {
        Some(n) => n.to_owned(),
        None => "new".to_owned(),
    };
    Ok(Constructor { name, arguments, ffi_func: FFIFunction::default(), attributes })
}

/// Fills in a list of constructors.
fn convert_constructors(types: &mut TypeUniverse, nodes: &Vec<ConstructorNode>) -> (r: Result<
    Vec<Constructor>,
    InterfaceError,
>)
    requires
        old(types).wf(),
    ensures
        final(types).wf(),
        final(types)@.definitions == old(types)@.definitions,
        match constructors_of(old(types)@, nodes@) {
            Ok((items, u)) => r is Ok && constructor_models(r->Ok_0@) == items && final(types)@ == u,
            Err(f) => r is Err && r->Err_0@ == f,
        },
{
    let ghost start = types@;
    let ghost step = |u: UniverseModel, n: ConstructorNode| constructor_of(u, n);
    let mut out: Vec<Constructor> = Vec::new();
    let mut i: usize = 0;
    proof {
        lemma_try_fold_done(start, nodes@, step);
        assert(constructor_models(out@) =~= Seq::empty());
    }
    while i < nodes.len()
        invariant
            i <= nodes@.len(),
            types.wf(),
            start == old(types)@,
            types@.definitions == start.definitions,
            step == (|u: UniverseModel, n: ConstructorNode| constructor_of(u, n)),
            constructors_of(start, nodes@) == try_fold(start, nodes@, step),
            try_fold(start, nodes@.take(i as int), step) == Ok::<
                (Seq<ConstructorModel>, UniverseModel),
                Failure,
            >((constructor_models(out@), types@)),
        decreases nodes@.len() - i,
    {
        proof {
            lemma_try_fold_step(start, nodes@, step, i as int);
        }
        let ghost before = constructor_models(out@);
        match convert_constructor(types, &nodes[i]) {
            Ok(item) => {
                let ghost added = item@;
                out.push(item);
                assert(constructor_models(out@) =~= before.push(added));
            },
            Err(f) => {
                proof {
                    lemma_try_fold_failure(start, nodes@, step, i as int + 1);
                }
                return Err(f);
            },
        }
        i += 1;
    }
    proof {
        lemma_try_fold_done(start, nodes@, step);
    }
    Ok(out)
}

/// Fills in a field of a dictionary.
fn convert_field(types: &mut TypeUniverse, node: &FieldNode) -> (r: Result<Field, InterfaceError>)
    requires
        old(types).wf(),
    ensures
        final(types).wf(),
        final(types)@.definitions == old(types)@.definitions,
        match field_of(old(types)@, *node) {
            Ok((item, u)) => r is Ok && r->Ok_0@ == item && final(types)@ == u,
            Err(f) => r is Err && r->Err_0@ == f,
        },
{
    match types.resolve_type_expression(&node.type_) {
        Ok(type_) => Ok(
            Field {
                name: node.name.clone(),
                type_,
                required: node.required,
                default: clone_default(&node.default),
            },
        ),
        Err(f) => Err(f),
    }
}

/// Fills in the fields of a dictionary.
fn convert_fields(types: &mut TypeUniverse, nodes: &Vec<FieldNode>) -> (r: Result<
    Vec<Field>,
    InterfaceError,
>)
    requires
        old(types).wf(),
    ensures
        final(types).wf(),
        final(types)@.definitions == old(types)@.definitions,
        match fields_of(old(types)@, nodes@) {
            Ok((items, u)) => r is Ok && field_models(r->Ok_0@) == items && final(types)@ == u,
            Err(f) => r is Err && r->Err_0@ == f,
        },
{
    let ghost start = types@;
    let ghost step = |u: UniverseModel, n: FieldNode| field_of(u, n);
    let mut out: Vec<Field> = Vec::new();
    let mut i: usize = 0;
    proof {
        lemma_try_fold_done(start, nodes@, step);
        assert(field_models(out@) =~= Seq::empty());
    }
    while i < nodes.len()
        invariant
            i <= nodes@.len(),
            types.wf(),
            start == old(types)@,
            types@.definitions == start.definitions,
            step == (|u: UniverseModel, n: FieldNode| field_of(u, n)),
            fields_of(start, nodes@) == try_fold(start, nodes@, step),
            try_fold(start, nodes@.take(i as int), step) == Ok::<
                (Seq<FieldModel>, UniverseModel),
                Failure,
            >((field_models(out@), types@)),
        decreases nodes@.len() - i,
    {
        proof {
            lemma_try_fold_step(start, nodes@, step, i as int);
        }
        let ghost before = field_models(out@);
        match convert_field(types, &nodes[i]) {
            Ok(item) => {
                let ghost added = item@;
                out.push(item);
                assert(field_models(out@) =~= before.push(added));
            },
            Err(f) => {
                proof {
                    lemma_try_fold_failure(start, nodes@, step, i as int + 1);
                }
                return Err(f);
            },
        }
        i += 1;
    }
    proof {
        lemma_try_fold_done(start, nodes@, step);
    }
    Ok(out)
}

/// Fills in a field of a variant of a tagged union.
fn convert_variant_field(types: &mut TypeUniverse, node: &ArgumentNode) -> (r: Result<
    Field,
    InterfaceError,
>)
    requires
        old(types).wf(),
    ensures
        final(types).wf(),
        final(types)@.definitions == old(types)@.definitions,
        match variant_field_of(old(types)@, *node) {
            Ok((item, u)) => r is Ok && r->Ok_0@ == item && final(types)@ == u,
            Err(f) => r is Err && r->Err_0@ == f,
        },
{
    match types.resolve_type_expression(&node.type_) {
        Ok(type_) => Ok(Field { name: node.name.clone(), type_, required: false, default: None }),
        Err(f) => Err(f),
    }
}

/// Fills in the fields of a variant of a tagged union.
fn convert_variant_fields(types: &mut TypeUniverse, nodes: &Vec<ArgumentNode>) -> (r: Result<
    Vec<Field>,
    InterfaceError,
>)
    requires
        old(types).wf(),
    ensures
        final(types).wf(),
        final(types)@.definitions == old(types)@.definitions,
        match variant_fields_of(old(types)@, nodes@) {
            Ok((items, u)) => r is Ok && field_models(r->Ok_0@) == items && final(types)@ == u,
            Err(f) => r is Err && r->Err_0@ == f,
        },
{
    let ghost start = types@;
    let ghost step = |u: UniverseModel, n: ArgumentNode| variant_field_of(u, n);
    let mut out: Vec<Field> = Vec::new();
    let mut i: usize = 0;
    proof {
        lemma_try_fold_done(start, nodes@, step);
        assert(field_models(out@) =~= Seq::empty());
    }
    while i < nodes.len()
        invariant
            i <= nodes@.len(),
            types.wf(),
            start == old(types)@,
            types@.definitions == start.definitions,
            step == (|u: UniverseModel, n: ArgumentNode| variant_field_of(u, n)),
            variant_fields_of(start, nodes@) == try_fold(start, nodes@, step),
            try_fold(start, nodes@.take(i as int), step) == Ok::<
                (Seq<FieldModel>, UniverseModel),
                Failure,
            >((field_models(out@), types@)),
        decreases nodes@.len() - i,
    {
        proof {
            lemma_try_fold_step(start, nodes@, step, i as int);
        }
        let ghost before = field_models(out@);
        match convert_variant_field(types, &nodes[i]) {
            Ok(item) => {
                let ghost added = item@;
                out.push(item);
                assert(field_models(out@) =~= before.push(added));
            },
            Err(f) => {
                proof {
                    lemma_try_fold_failure(start, nodes@, step, i as int + 1);
                }
                return Err(f);
            },
        }
        i += 1;
    }
    proof {
        lemma_try_fold_done(start, nodes@, step);
    }
    Ok(out)
}

/// Fills in a variant of a tagged union.
fn convert_variant(types: &mut TypeUniverse, node: &OperationNode) -> (r: Result<
    Variant,
    InterfaceError,
>)
    requires
        old(types).wf(),
    ensures
        final(types).wf(),
        final(types)@.definitions == old(types)@.definitions,
        match variant_of(old(types)@, *node) {
            Ok((item, u)) => r is Ok && r->Ok_0@ == item && final(types)@ == u,
            Err(f) => r is Err && r->Err_0@ == f,
        },
{
    match convert_variant_fields(types, &node.arguments) {
        Ok(fields) => Ok(Variant { name: node.name.clone(), fields }),
        Err(f) => Err(f),
    }
}

/// Fills in the variants of a tagged union.
fn convert_variants(types: &mut TypeUniverse, nodes: &Vec<OperationNode>) -> (r: Result<
    Vec<Variant>,
    InterfaceError,
>)
    requires
        old(types).wf(),
    ensures
        final(types).wf(),
        final(types)@.definitions == old(types)@.definitions,
        match variants_of(old(types)@, nodes@) {
            Ok((items, u)) => r is Ok && variant_models(r->Ok_0@) == items && final(types)@ == u,
            Err(f) => r is Err && r->Err_0@ == f,
        },
{
    let ghost start = types@;
    let ghost step = |u: UniverseModel, n: OperationNode| variant_of(u, n);
    let mut out: Vec<Variant> = Vec::new();
    let mut i: usize = 0;
    proof {
        lemma_try_fold_done(start, nodes@, step);
        assert(variant_models(out@) =~= Seq::empty());
    }
    while i < nodes.len()
        invariant
            i <= nodes@.len(),
            types.wf(),
            start == old(types)@,
            types@.definitions == start.definitions,
            step == (|u: UniverseModel, n: OperationNode| variant_of(u, n)),
            variants_of(start, nodes@) == try_fold(start, nodes@, step),
            try_fold(start, nodes@.take(i as int), step) == Ok::<
                (Seq<VariantModel>, UniverseModel),
                Failure,
            >((variant_models(out@), types@)),
        decreases nodes@.len() - i,
    {
        proof {
            lemma_try_fold_step(start, nodes@, step, i as int);
        }
        let ghost before = variant_models(out@);
        match convert_variant(types, &nodes[i]) {
            Ok(item) => {
                let ghost added = item@;
                out.push(item);
                assert(variant_models(out@) =~= before.push(added));
            },
            Err(f) => {
                proof {
                    lemma_try_fold_failure(start, nodes@, step, i as int + 1);
                }
                return Err(f);
            },
        }
        i += 1;
    }
    proof {
        lemma_try_fold_done(start, nodes@, step);
    }
    Ok(out)
}

/// Fills in a tagged union.
fn convert_union(types: &mut TypeUniverse, name: &str, members: &Vec<OperationNode>) -> (r: Result<
    Enum,
    InterfaceError,
>)
    requires
        old(types).wf(),
    ensures
        final(types).wf(),
        final(types)@.definitions == old(types)@.definitions,
        match union_of(old(types)@, name@, members@) {
            Ok((item, u)) => r is Ok && r->Ok_0@ == item && final(types)@ == u,
            Err(f) => r is Err && r->Err_0@ == f,
        },
{
    match convert_variants(types, members) {
        Ok(variants) => Ok(Enum { name: name.to_owned(), variants }),
        Err(f) => Err(f),
    }
}

/// The enum that a list of variants without fields declares.
fn flat_enum(name: &str, variants: &Vec<String>) -> (r: Enum)
    ensures
        r@ == flat_enum_of(name@, variants@),
{
    let mut out: Vec<Variant> = Vec::new();
    let mut i: usize = 0;
    while i < variants.len()
        invariant
            i <= variants@.len(),
            out@.len() == i,
            forall|j: int|
                0 <= j < i ==> (#[trigger] out@[j])@ == (VariantModel {
                    name: variants@[j]@,
                    fields: Seq::empty(),
                }),
        decreases variants@.len() - i,
    {
        let v = Variant { name: variants[i].clone(), fields: Vec::new() };
        assert(v@.fields =~= Seq::empty());
        out.push(v);
        i += 1;
    }
    let r = Enum { name: name.to_owned(), variants: out };
    assert(r@.variants =~= flat_enum_of(name@, variants@).variants);
    r
}

/// Fills in an object.
fn convert_object(
    types: &mut TypeUniverse,
    name: &str,
    threadsafe: bool,
    constructors: &Vec<ConstructorNode>,
    members: &Vec<OperationNode>,
) -> (r: Result<Object, InterfaceError>)
    requires
        old(types).wf(),
    ensures
        final(types).wf(),
        final(types)@.definitions == old(types)@.definitions,
        match object_of(old(types)@, name@, threadsafe, constructors@, members@) {
            Ok((item, u)) => r is Ok && r->Ok_0@ == item && final(types)@ == u,
            Err(f) => r is Err && r->Err_0@ == f,
        },
{
    let constructors = match convert_constructors(types, constructors) {
        Ok(c) => c,
        Err(f) => {
            return Err(f);
        },
    };
    let methods = match convert_methods(types, name, members) {
        Ok(m) => m,
        Err(f) => {
            return Err(f);
        },
    };
    Ok(
        Object {
            name: name.to_owned(),
            constructors,
            methods,
            ffi_func_free: FFIFunction::default(),
            uses_deprecated_threadsafe_attribute: threadsafe,
        },
    )
}


/// Binds the name that a declaration introduces.
fn declare_type(types: &mut TypeUniverse, name: &str, type_: Type) -> (r: Result<
    (),
    InterfaceError,
>)
    requires
        old(types).wf(),
    ensures
        final(types).wf(),
        match declare(old(types)@, name@, type_@) {
            Ok(u) => r is Ok && final(types)@ == u,
            Err(f) => r is Err && r->Err_0@ == f,
        },
{
    if resolve_builtin_type(name).is_some() || types.get_type_definition(name).is_some() {
        return Err(InterfaceError::DuplicateDefinition(name.to_owned()));
    }
    types.add_type_definition(name, type_)
}

/// What the first pass does with one declaration.
fn discover_one(types: &mut TypeUniverse, d: &Definition) -> (r: Result<(), InterfaceError>)
    requires
        old(types).wf(),
    ensures
        final(types).wf(),
        match discover_step(old(types)@, *d) {
            Ok(u) => r is Ok && final(types)@ == u,
            Err(f) => r is Err && r->Err_0@ == f,
        },
{
    match d {
        Definition::Namespace { name, functions } => Ok(()),
        Definition::Dictionary { name, fields } => declare_type(
            types,
            name.as_str(),
            Type::Record(name.clone()),
        ),
        Definition::Enum { name, attributes, variants } => {
            let attrs = match EnumAttributes::try_from(attributes) {
                Ok(a) => a,
                Err(f) => {
                    return Err(f);
                },
            };
            if attrs.contains_error_attr() {
                declare_type(types, name.as_str(), Type::Error(name.clone()))
            } else {
                declare_type(types, name.as_str(), Type::Enum(name.clone()))
            }
        },
        Definition::Interface { name, attributes, constructors, members } => {
            let attrs = match InterfaceAttributes::try_from(attributes) {
                Ok(a) => a,
                Err(f) => {
                    return Err(f);
                },
            };
            if attrs.contains_enum_attr() {
                declare_type(types, name.as_str(), Type::Enum(name.clone()))
            } else if attrs.contains_error_attr() {
                declare_type(types, name.as_str(), Type::Error(name.clone()))
            } else {
                declare_type(types, name.as_str(), Type::Object(name.clone()))
            }
        },
        Definition::CallbackInterface { name, methods } => declare_type(
            types,
            name.as_str(),
            Type::CallbackInterface(name.clone()),
        ),
        Definition::Typedef { name, attributes, type_ } => {
            let attrs = match TypedefAttributes::try_from(attributes) {
                Ok(a) => a,
                Err(f) => {
                    return Err(f);
                },
            };
            if attrs.is_custom() {
                let builtin = match types.resolve_type_expression(type_) {
                    Ok(t) => t,
                    Err(f) => {
                        return Err(f);
                    },
                };
                declare_type(
                    types,
                    name.as_str(),
                    Type::Custom { name: name.clone(), builtin: Box::new(builtin) },
                )
            } else {
                match attrs.crate_name() {
                    Some(crate_name) => declare_type(
                        types,
                        name.as_str(),
                        Type::External { name: name.clone(), crate_name: crate_name.to_owned() },
                    ),
                    None => Err(InterfaceError::UnsupportedAttribute(name.clone())),
                }
            }
        },
    }
}

/// The first pass: discovers the name that each declaration introduces.
fn discover_all(types: &mut TypeUniverse, defns: &Vec<Definition>) -> (r: Result<
    (),
    InterfaceError,
>)
    requires
        old(types).wf(),
    ensures
        final(types).wf(),
        match discover(old(types)@, defns@) {
            Ok(u) => r is Ok && final(types)@ == u,
            Err(f) => r is Err && r->Err_0@ == f,
        },
{
    let ghost start = types@;
    let ghost step = |u: UniverseModel, d: Definition| discover_step(u, d);
    let mut i: usize = 0;
    proof {
        lemma_try_each_done(start, defns@, step);
    }
    while i < defns.len()
        invariant
            i <= defns@.len(),
            types.wf(),
            start == old(types)@,
            step == (|u: UniverseModel, d: Definition| discover_step(u, d)),
            discover(start, defns@) == try_each(start, defns@, step),
            try_each(start, defns@.take(i as int), step) == Ok::<UniverseModel, Failure>(types@),
        decreases defns@.len() - i,
    {
        proof {
            lemma_try_each_step(start, defns@, step, i as int);
        }
        match discover_one(types, &defns[i]) {
            Ok(()) => {},
            Err(f) => {
                proof {
                    lemma_try_each_failure(start, defns@, step, i as int + 1);
                }
                return Err(f);
            },
        }
        i += 1;
    }
    proof {
        lemma_try_each_done(start, defns@, step);
    }
    Ok(())
}

/// Adds the functions of a namespace, one after the other.
fn add_functions(ci: &mut ComponentInterface, functions: &Vec<Function>) -> (r: Result<
    (),
    InterfaceError,
>)
    requires
        old(ci).wf(),
    ensures
        final(ci).wf(),
        match try_each(
            old(ci)@,
            views(functions@),
            |m: InterfaceModel, f: FunctionModel| with_function(m, f),
        ) {
            Ok(m) => r is Ok && final(ci)@ == m,
            Err(f) => r is Err && r->Err_0@ == f,
        },
{
    let ghost start = ci@;
    let ghost all = views(functions@);
    let ghost step = |m: InterfaceModel, f: FunctionModel| with_function(m, f);
    let mut i: usize = 0;
    proof {
        lemma_try_each_done(start, all, step);
    }
    while i < functions.len()
        invariant
            i <= functions@.len(),
            ci.wf(),
            start == old(ci)@,
            all == views(functions@),
            step == (|m: InterfaceModel, f: FunctionModel| with_function(m, f)),
            try_each(start, all.take(i as int), step) == Ok::<InterfaceModel, Failure>(ci@),
        decreases functions@.len() - i,
    {
        proof {
            lemma_try_each_step(start, all, step, i as int);
        }
        match ci.add_function_definition(functions[i].clone()) {
            Ok(()) => {},
            Err(f) => {
                proof {
                    lemma_try_each_failure(start, all, step, i as int + 1);
                }
                return Err(f);
            },
        }
        i += 1;
    }
    proof {
        lemma_try_each_done(start, all, step);
    }
    Ok(())
}

/// What the second pass does with one declaration.
fn detail_one(ci: &mut ComponentInterface, d: &Definition) -> (r: Result<(), InterfaceError>)
    requires
        old(ci).wf(),
    ensures
        final(ci).wf(),
        match detail_step(old(ci)@, *d) {
            Ok(m) => r is Ok && final(ci)@ == m,
            Err(f) => r is Err && r->Err_0@ == f,
        },
{
    match d {
        Definition::Namespace { name, functions } => {
            match ci.add_namespace_definition(Namespace::new(name.clone())) {
                Ok(()) => {},
                Err(f) => {
                    return Err(f);
                },
            }
            let converted = match convert_functions(&mut ci.types, functions) {
                Ok(fs) => fs,
                Err(f) => {
                    return Err(f);
                },
            };
            add_functions(ci, &converted)
        },
        Definition::Dictionary { name, fields } => {
            match convert_fields(&mut ci.types, fields) {
                Ok(fields) => {
                    ci.add_record_definition(Record { name: name.clone(), fields });
                    Ok(())
                },
                Err(f) => Err(f),
            }
        },
        Definition::Enum { name, attributes, variants } => {
            let attrs = match EnumAttributes::try_from(attributes) {
                Ok(a) => a,
                Err(f) => {
                    return Err(f);
                },
            };
            let e = flat_enum(name.as_str(), variants);
            if attrs.contains_error_attr() {
                ci.add_error_definition(Error::from_enum(e));
            } else {
                ci.add_enum_definition(e);
            }
            Ok(())
        },
        Definition::Interface { name, attributes, constructors, members } => {
            let attrs = match InterfaceAttributes::try_from(attributes) {
                Ok(a) => a,
                Err(f) => {
                    return Err(f);
                },
            };
            if attrs.contains_enum_attr() {
                match convert_union(&mut ci.types, name.as_str(), members) {
                    Ok(e) => {
                        ci.add_enum_definition(e);
                        Ok(())
                    },
                    Err(f) => Err(f),
                }
            } else if attrs.contains_error_attr() {
                match convert_union(&mut ci.types, name.as_str(), members) {
                    Ok(e) => {
                        ci.add_error_definition(Error::from_enum(e));
                        Ok(())
                    },
                    Err(f) => Err(f),
                }
            } else {
                match convert_object(
                    &mut ci.types,
                    name.as_str(),
                    attrs.threadsafe(),
                    constructors,
                    members,
                ) {
                    Ok(o) => {
                        ci.add_object_definition(o);
                        Ok(())
                    },
                    Err(f) => Err(f),
                }
            }
        },
        Definition::CallbackInterface { name, methods } => {
            match convert_methods(&mut ci.types, name.as_str(), methods) {
                Ok(methods) => {
                    ci.add_callback_interface_definition(
                        CallbackInterface {
                            name: name.clone(),
                            methods,
                            ffi_init_callback: FFIFunction::default(),
                        },
                    );
                    Ok(())
                },
                Err(f) => Err(f),
            }
        },
        Definition::Typedef { name, attributes, type_ } => Ok(()),
    }
}

/// The second pass: fills in every declaration and adds it to the interface.
fn detail_all(ci: &mut ComponentInterface, defns: &Vec<Definition>) -> (r: Result<
    (),
    InterfaceError,
>)
    requires
        old(ci).wf(),
    ensures
        final(ci).wf(),
        match detail(old(ci)@, defns@) {
            Ok(m) => r is Ok && final(ci)@ == m,
            Err(f) => r is Err && r->Err_0@ == f,
        },
{
    let ghost start = ci@;
    let ghost step = |m: InterfaceModel, d: Definition| detail_step(m, d);
    let mut i: usize = 0;
    proof {
        lemma_try_each_done(start, defns@, step);
    }
    while i < defns.len()
        invariant
            i <= defns@.len(),
            ci.wf(),
            start == old(ci)@,
            step == (|m: InterfaceModel, d: Definition| detail_step(m, d)),
            detail(start, defns@) == try_each(start, defns@, step),
            try_each(start, defns@.take(i as int), step) == Ok::<InterfaceModel, Failure>(ci@),
        decreases defns@.len() - i,
    {
        proof {
            lemma_try_each_step(start, defns@, step, i as int);
        }
        match detail_one(ci, &defns[i]) {
            Ok(()) => {},
            Err(f) => {
                proof {
                    lemma_try_each_failure(start, defns@, step, i as int + 1);
                }
                return Err(f);
            },
        }
        i += 1;
    }
    proof {
        lemma_try_each_done(start, defns@, step);
    }
    Ok(())
}

impl ComponentInterface {
    /// Builds the interface that a list of declarations describes. Names are
    /// discovered before any declaration is filled in, so a declaration may name
    /// a type that is declared further down; a name that nothing declares fails
    /// the build, as does a name declared twice, an attribute that its
    /// declaration does not take, a missing namespace and a variant that shadows
    /// a type. On success the low-level functions are derived.
    pub fn from_definitions(defns: &Vec<Definition>) -> (r: Result<
        ComponentInterface,
        InterfaceError,
    >)
        ensures
            match build("0.1.0"@, defns@) {
                Ok(m) => r is Ok && r->Ok_0@ == m && r->Ok_0.wf(),
                Err(f) => r is Err && r->Err_0@ == f,
            },
    {
        let mut ci = ComponentInterface::new();
        match discover_all(&mut ci.types, defns) {
            Ok(()) => {},
            Err(f) => {
                return Err(f);
            },
        }
        assert(ci@ == blank("0.1.0"@, ci@.types));
        match detail_all(&mut ci, defns) {
            Ok(()) => {},
            Err(f) => {
                return Err(f);
            },
        }
        match ci.check_consistency() {
            Ok(()) => {},
            Err(f) => {
                return Err(f);
            },
        }
        let _ = ci.derive_ffi_funcs();
        Ok(ci)
    }
}

} // verus!
