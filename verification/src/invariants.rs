//! What holds of every interface that was built: every type that a declaration
//! uses is bound in the registry, under its own name.

use vstd::prelude::*;
use crate::attributes::{accept_all, AttributeModel, AttributeTarget};
use crate::builder::{
    argument_of, arguments_of, blank, build, constructor_of, constructors_of, detail,
    detail_step, discover, discover_step, field_of, fields_of, flat_enum_of, function_of,
    functions_of, method_of, methods_of, resolved_optional, union_of, variant_field_of,
    variant_fields_of, variant_of, with_function, with_namespace,
};
use crate::enum_::{EnumModel, VariantModel};
use crate::fold::{lemma_try_each_keeps, lemma_try_each_step, lemma_try_fold_items, try_each};
use crate::function::{ArgumentModel, FunctionModel};
use crate::interface::InterfaceModel;
use crate::laws::{
    introduced, law_detail_binds_nothing, lemma_discover_prefix, lemma_discover_step, no_types,
};
use crate::object::{ConstructorModel, MethodModel, ObjectModel};
use crate::record::FieldModel;
use crate::syntax::{ArgumentNode, ConstructorNode, Definition, FieldNode, OperationNode};
use crate::traversal::lemma_push_contains;
use crate::types::{builtin_type, TypeModel};
use crate::universe::{binding, resolve, TypeExpr, UniverseModel};

verus! {

/// The name under which a type is bound in the registry. Built-in types and
/// structures are bound under none.
pub open spec fn registered_name(t: TypeModel) -> Option<Seq<char>> {
    match t {
        TypeModel::Object(n) => Some(n),
        TypeModel::Record(n) => Some(n),
        TypeModel::Enum(n) => Some(n),
        TypeModel::Error(n) => Some(n),
        TypeModel::CallbackInterface(n) => Some(n),
        TypeModel::External { name, crate_name } => Some(name),
        TypeModel::Custom { name, builtin } => Some(name),
        _ => None,
    }
}

/// Whether every name that occurs in `t` is bound, and bound to the type that
/// occurs under it.
pub open spec fn settled(definitions: Map<Seq<char>, TypeModel>, t: TypeModel) -> bool
    decreases t,
{
    match t {
        TypeModel::Optional(x) => settled(definitions, *x),
        TypeModel::Sequence(x) => settled(definitions, *x),
        TypeModel::Mapping(k, v) => settled(definitions, *k) && settled(definitions, *v),
        _ => match registered_name(t) {
            Some(n) => definitions.contains_key(n) && definitions[n] == t,
            None => true,
        },
    }
}

/// Whether an optional type is settled.
pub open spec fn settled_optional(definitions: Map<Seq<char>, TypeModel>, t: Option<TypeModel>)
    -> bool {
    t matches Some(t) ==> settled(definitions, t)
}

/// Whether every name is bound to a type that goes by it.
pub open spec fn self_describing(definitions: Map<Seq<char>, TypeModel>) -> bool {
    forall|n: Seq<char>| #[trigger]
        definitions.contains_key(n) ==> registered_name(definitions[n]) == Some(n)
}

/// Whether the types of all fields are settled.
pub open spec fn settled_fields(definitions: Map<Seq<char>, TypeModel>, fields: Seq<FieldModel>)
    -> bool {
    forall|i: int| 0 <= i < fields.len() ==> settled(definitions, (#[trigger] fields[i]).type_)
}

/// Whether the types of all arguments are settled.
pub open spec fn settled_arguments(
    definitions: Map<Seq<char>, TypeModel>,
    arguments: Seq<ArgumentModel>,
) -> bool {
    forall|i: int|
        0 <= i < arguments.len() ==> settled(definitions, (#[trigger] arguments[i]).type_)
}

/// Whether the types of the arguments and of the result of a method are settled.
pub open spec fn settled_method(definitions: Map<Seq<char>, TypeModel>, m: MethodModel) -> bool {
    settled_arguments(definitions, m.arguments) && settled_optional(definitions, m.return_type)
}

/// Whether the types of all variants of an enum are settled.
pub open spec fn settled_enum(definitions: Map<Seq<char>, TypeModel>, e: EnumModel) -> bool {
    forall|i: int|
        0 <= i < e.variants.len() ==> settled_fields(definitions, (#[trigger] e.variants[i]).fields)
}

/// Whether the types of all constructors and methods of an object are settled.
pub open spec fn settled_object(definitions: Map<Seq<char>, TypeModel>, o: ObjectModel) -> bool {
    &&& forall|i: int|
        0 <= i < o.constructors.len() ==> settled_arguments(
            definitions,
            (#[trigger] o.constructors[i]).arguments,
        )
    &&& forall|i: int|
        0 <= i < o.methods.len() ==> settled_method(definitions, #[trigger] o.methods[i])
}

impl InterfaceModel {
    /// Whether every type that a declaration of the interface uses, for a
    /// field, an argument or a result, is settled in the registry of the interface.
    pub open spec fn settled(self) -> bool {
        let d = self.types.definitions;
        &&& forall|i: int|
            0 <= i < self.records.len() ==> settled_fields(d, (#[trigger] self.records[i]).fields)
        &&& forall|i: int| 0 <= i < self.enums.len() ==> settled_enum(d, #[trigger] self.enums[i])
        &&& forall|i: int|
            0 <= i < self.errors.len() ==> settled_enum(d, (#[trigger] self.errors[i]).enum_)
        &&& forall|i: int|
            0 <= i < self.functions.len() ==> settled_arguments(
                d,
                (#[trigger] self.functions[i]).arguments,
            ) && settled_optional(d, self.functions[i].return_type)
        &&& forall|i: int|
            0 <= i < self.objects.len() ==> settled_object(d, #[trigger] self.objects[i])
        &&& forall|i: int|
            0 <= i < self.callback_interfaces.len() ==> forall|k: int|
                0 <= k < (#[trigger] self.callback_interfaces[i]).methods.len()
                    ==> settled_method(d, #[trigger] self.callback_interfaces[i].methods[k])
    }
}

/// A type that resolves under bindings that describe themselves is settled.
pub proof fn lemma_resolved_is_settled(definitions: Map<Seq<char>, TypeModel>, expr: TypeExpr)
    requires
        self_describing(definitions),
        resolve(definitions, expr) is Ok,
    ensures
        settled(definitions, resolve(definitions, expr)->Ok_0),
    decreases expr,
{
    match expr {
        TypeExpr::Named(n) => {},
        TypeExpr::Optional(e) => {
            lemma_resolved_is_settled(definitions, *e);
        },
        TypeExpr::Sequence(e) => {
            lemma_resolved_is_settled(definitions, *e);
        },
        TypeExpr::Mapping(k, v) => {
            lemma_resolved_is_settled(definitions, *k);
            lemma_resolved_is_settled(definitions, *v);
        },
    }
}

/// Whether a registry binds what `definitions` binds.
pub open spec fn under(definitions: Map<Seq<char>, TypeModel>) -> spec_fn(UniverseModel) -> bool {
    |u: UniverseModel| u.definitions == definitions
}

/// The arguments that are filled in are settled.
pub proof fn lemma_arguments_are_settled(u: UniverseModel, nodes: Seq<ArgumentNode>)
    requires
        self_describing(u.definitions),
    ensures
        arguments_of(u, nodes) is Ok ==> arguments_of(u, nodes)->Ok_0.1.definitions
            == u.definitions && settled_arguments(u.definitions, arguments_of(u, nodes)->Ok_0.0),
        variant_fields_of(u, nodes) is Ok ==> variant_fields_of(u, nodes)->Ok_0.1.definitions
            == u.definitions && settled_fields(u.definitions, variant_fields_of(u, nodes)->Ok_0.0),
{
    let d = u.definitions;
    assert forall|s: UniverseModel, a: ArgumentNode|
        under(d)(s) && (#[trigger] argument_of(s, a)) is Ok implies under(d)(
        argument_of(s, a)->Ok_0.1,
    ) && settled(d, argument_of(s, a)->Ok_0.0.type_) by {
        lemma_resolved_is_settled(d, a.type_);
    }
    lemma_try_fold_items(
        u,
        nodes,
        |u: UniverseModel, n: ArgumentNode| argument_of(u, n),
        under(d),
        |a: ArgumentModel| settled(d, a.type_),
    );
    assert forall|s: UniverseModel, a: ArgumentNode|
        under(d)(s) && (#[trigger] variant_field_of(s, a)) is Ok implies under(d)(
        variant_field_of(s, a)->Ok_0.1,
    ) && settled(d, variant_field_of(s, a)->Ok_0.0.type_) by {
        lemma_resolved_is_settled(d, a.type_);
    }
    lemma_try_fold_items(
        u,
        nodes,
        |u: UniverseModel, n: ArgumentNode| variant_field_of(u, n),
        under(d),
        |f: FieldModel| settled(d, f.type_),
    );
}

/// The fields of a dictionary that are filled in are settled.
pub proof fn lemma_fields_are_settled(u: UniverseModel, nodes: Seq<FieldNode>)
    requires
        self_describing(u.definitions),
    ensures
        fields_of(u, nodes) is Ok ==> fields_of(u, nodes)->Ok_0.1.definitions == u.definitions
            && settled_fields(u.definitions, fields_of(u, nodes)->Ok_0.0),
{
    let d = u.definitions;
    assert forall|s: UniverseModel, a: FieldNode|
        under(d)(s) && (#[trigger] field_of(s, a)) is Ok implies under(d)(field_of(s, a)->Ok_0.1)
            && settled(d, field_of(s, a)->Ok_0.0.type_) by {
        lemma_resolved_is_settled(d, a.type_);
    }
    lemma_try_fold_items(
        u,
        nodes,
        |u: UniverseModel, n: FieldNode| field_of(u, n),
        under(d),
        |f: FieldModel| settled(d, f.type_),
    );
}

/// An optional type that is resolved is settled.
pub proof fn lemma_optional_is_settled(u: UniverseModel, expr: Option<TypeExpr>)
    requires
        self_describing(u.definitions),
    ensures
        resolved_optional(u, expr) is Ok ==> resolved_optional(u, expr)->Ok_0.1.definitions
            == u.definitions && settled_optional(
            u.definitions,
            resolved_optional(u, expr)->Ok_0.0,
        ),
{
    if let Some(e) = expr {
        if resolve(u.definitions, e) is Ok {
            lemma_resolved_is_settled(u.definitions, e);
        }
    }
}

/// The functions of a namespace that are filled in are settled.
pub proof fn lemma_functions_are_settled(u: UniverseModel, nodes: Seq<OperationNode>)
    requires
        self_describing(u.definitions),
    ensures
        functions_of(u, nodes) is Ok ==> functions_of(u, nodes)->Ok_0.1.definitions
            == u.definitions && forall|i: int|
            0 <= i < functions_of(u, nodes)->Ok_0.0.len() ==> settled_arguments(
                u.definitions,
                (#[trigger] functions_of(u, nodes)->Ok_0.0[i]).arguments,
            ) && settled_optional(u.definitions, functions_of(u, nodes)->Ok_0.0[i].return_type),
{
    let d = u.definitions;
    let good = |f: FunctionModel|
        settled_arguments(d, f.arguments) && settled_optional(d, f.return_type);
    assert forall|s: UniverseModel, a: OperationNode|
        under(d)(s) && (#[trigger] function_of(s, a)) is Ok implies under(d)(
        function_of(s, a)->Ok_0.1,
    ) && good(function_of(s, a)->Ok_0.0) by {
        lemma_optional_is_settled(s, a.return_type);
        lemma_arguments_are_settled(resolved_optional(s, a.return_type)->Ok_0.1, a.arguments@);
    }
    lemma_try_fold_items(
        u,
        nodes,
        |u: UniverseModel, n: OperationNode| function_of(u, n),
        under(d),
        good,
    );
}

/// The methods that are filled in are settled.
pub proof fn lemma_methods_are_settled(
    u: UniverseModel,
    object: Seq<char>,
    nodes: Seq<OperationNode>,
)
    requires
        self_describing(u.definitions),
    ensures
        methods_of(u, object, nodes) is Ok ==> methods_of(u, object, nodes)->Ok_0.1.definitions
            == u.definitions && forall|i: int|
            0 <= i < methods_of(u, object, nodes)->Ok_0.0.len() ==> settled_method(
                u.definitions,
                #[trigger] methods_of(u, object, nodes)->Ok_0.0[i],
            ),
{
    let d = u.definitions;
    assert forall|s: UniverseModel, a: OperationNode|
        under(d)(s) && (#[trigger] method_of(s, object, a)) is Ok implies under(d)(
        method_of(s, object, a)->Ok_0.1,
    ) && settled_method(d, method_of(s, object, a)->Ok_0.0) by {
        lemma_optional_is_settled(s, a.return_type);
        lemma_arguments_are_settled(resolved_optional(s, a.return_type)->Ok_0.1, a.arguments@);
    }
    lemma_try_fold_items(
        u,
        nodes,
        |u: UniverseModel, n: OperationNode| method_of(u, object, n),
        under(d),
        |m: MethodModel| settled_method(d, m),
    );
}

/// The constructors that are filled in are settled.
pub proof fn lemma_constructors_are_settled(u: UniverseModel, nodes: Seq<ConstructorNode>)
    requires
        self_describing(u.definitions),
    ensures
        constructors_of(u, nodes) is Ok ==> constructors_of(u, nodes)->Ok_0.1.definitions
            == u.definitions && forall|i: int|
            0 <= i < constructors_of(u, nodes)->Ok_0.0.len() ==> settled_arguments(
                u.definitions,
                (#[trigger] constructors_of(u, nodes)->Ok_0.0[i]).arguments,
            ),
{
    let d = u.definitions;
    assert forall|s: UniverseModel, a: ConstructorNode|
        under(d)(s) && (#[trigger] constructor_of(s, a)) is Ok implies under(d)(
        constructor_of(s, a)->Ok_0.1,
    ) && settled_arguments(d, constructor_of(s, a)->Ok_0.0.arguments) by {
        lemma_arguments_are_settled(s, a.arguments@);
    }
    lemma_try_fold_items(
        u,
        nodes,
        |u: UniverseModel, n: ConstructorNode| constructor_of(u, n),
        under(d),
        |c: ConstructorModel| settled_arguments(d, c.arguments),
    );
}

/// The variants of a tagged union that are filled in are settled.
pub proof fn lemma_union_is_settled(u: UniverseModel, name: Seq<char>, nodes: Seq<OperationNode>)
    requires
        self_describing(u.definitions),
    ensures
        union_of(u, name, nodes) is Ok ==> union_of(u, name, nodes)->Ok_0.1.definitions
            == u.definitions && settled_enum(u.definitions, union_of(u, name, nodes)->Ok_0.0),
{
    let d = u.definitions;
    assert forall|s: UniverseModel, a: OperationNode|
        under(d)(s) && (#[trigger] variant_of(s, a)) is Ok implies under(d)(
        variant_of(s, a)->Ok_0.1,
    ) && settled_fields(d, variant_of(s, a)->Ok_0.0.fields) by {
        lemma_arguments_are_settled(s, a.arguments@);
    }
    lemma_try_fold_items(
        u,
        nodes,
        |u: UniverseModel, n: OperationNode| variant_of(u, n),
        under(d),
        |v: VariantModel| settled_fields(d, v.fields),
    );
}

/// Whether an interface is settled under bindings that describe themselves.
pub open spec fn sound(m: InterfaceModel) -> bool {
    self_describing(m.types.definitions) && m.settled()
}

/// To add a function leaves an interface sound, where the function is settled.
proof fn lemma_functions_added(m: InterfaceModel, fs: Seq<FunctionModel>)
    requires
        sound(m),
        forall|i: int|
            0 <= i < fs.len() ==> settled_arguments(
                m.types.definitions,
                (#[trigger] fs[i]).arguments,
            ) && settled_optional(m.types.definitions, fs[i].return_type),
    ensures
        try_each(m, fs, |m: InterfaceModel, f: FunctionModel| with_function(m, f)) is Ok ==> sound(
            try_each(m, fs, |m: InterfaceModel, f: FunctionModel| with_function(m, f))->Ok_0,
        ),
    decreases fs.len(),
{
    if fs.len() > 0 {
        let front = fs.drop_last();
        assert forall|i: int| 0 <= i < front.len() implies settled_arguments(
            m.types.definitions,
            (#[trigger] front[i]).arguments,
        ) && settled_optional(m.types.definitions, front[i].return_type) by {
            assert(front[i] == fs[i]);
        }
        lemma_functions_added(m, front);
        lemma_try_each_keeps(
            m,
            front,
            |m: InterfaceModel, f: FunctionModel| with_function(m, f),
            |x: InterfaceModel| x.types == m.types,
        );
        let step = |m: InterfaceModel, f: FunctionModel| with_function(m, f);
        if try_each(m, fs, step) is Ok {
            let before = try_each(m, front, step)->Ok_0;
            let after = try_each(m, fs, step)->Ok_0;
            assert(after.functions == before.functions.push(fs.last()));
            assert forall|i: int| 0 <= i < after.functions.len() implies settled_arguments(
                after.types.definitions,
                (#[trigger] after.functions[i]).arguments,
            ) && settled_optional(after.types.definitions, after.functions[i].return_type) by {
                if i < before.functions.len() {
                    assert(after.functions[i] == before.functions[i]);
                } else {
                    assert(after.functions[i] == fs[fs.len() - 1]);
                }
            }
        }
    }
}

/// What the second pass does with one declaration leaves an interface sound.
pub proof fn lemma_detail_step_is_sound(m: InterfaceModel, d: Definition)
    requires
        sound(m),
    ensures
        detail_step(m, d) is Ok ==> sound(detail_step(m, d)->Ok_0),
{
    let defs = m.types.definitions;
    if detail_step(m, d) is Ok {
        let after = detail_step(m, d)->Ok_0;
        match d {
            Definition::Namespace { name, functions } => {
                let named = with_namespace(m, name@)->Ok_0;
                lemma_functions_are_settled(named.types, functions@);
                let (fs, u) = functions_of(named.types, functions@)->Ok_0;
                let start = InterfaceModel { types: u, ..named };
                assert(sound(start));
                lemma_functions_added(start, fs);
            },
            Definition::Dictionary { name, fields } => {
                lemma_fields_are_settled(m.types, fields@);
                assert forall|i: int| 0 <= i < after.records.len() implies settled_fields(
                    defs,
                    (#[trigger] after.records[i]).fields,
                ) by {
                    if i < m.records.len() {
                        assert(after.records[i] == m.records[i]);
                    }
                }
            },
            Definition::Enum { name, attributes, variants } => {
                let e = flat_enum_of(name@, variants@);
                assert(settled_enum(defs, e));
                assert forall|i: int| 0 <= i < after.enums.len() implies settled_enum(
                    defs,
                    #[trigger] after.enums[i],
                ) by {
                    if i < m.enums.len() {
                        assert(after.enums[i] == m.enums[i]);
                    }
                }
                assert forall|i: int| 0 <= i < after.errors.len() implies settled_enum(
                    defs,
                    (#[trigger] after.errors[i]).enum_,
                ) by {
                    if i < m.errors.len() {
                        assert(after.errors[i] == m.errors[i]);
                    }
                }
            },
            Definition::Interface { name, attributes, constructors, members } => {
                lemma_union_is_settled(m.types, name@, members@);
                lemma_constructors_are_settled(m.types, constructors@);
                if constructors_of(m.types, constructors@) is Ok {
                    lemma_methods_are_settled(
                        constructors_of(m.types, constructors@)->Ok_0.1,
                        name@,
                        members@,
                    );
                }
                assert forall|i: int| 0 <= i < after.enums.len() implies settled_enum(
                    defs,
                    #[trigger] after.enums[i],
                ) by {
                    if i < m.enums.len() {
                        assert(after.enums[i] == m.enums[i]);
                    }
                }
                assert forall|i: int| 0 <= i < after.errors.len() implies settled_enum(
                    defs,
                    (#[trigger] after.errors[i]).enum_,
                ) by {
                    if i < m.errors.len() {
                        assert(after.errors[i] == m.errors[i]);
                    }
                }
                assert forall|i: int| 0 <= i < after.objects.len() implies settled_object(
                    defs,
                    #[trigger] after.objects[i],
                ) by {
                    if i < m.objects.len() {
                        assert(after.objects[i] == m.objects[i]);
                    }
                }
            },
            Definition::CallbackInterface { name, methods } => {
                lemma_methods_are_settled(m.types, name@, methods@);
                assert forall|i: int| 0 <= i < after.callback_interfaces.len() implies forall|
                    k: int,
                |
                    0 <= k < (#[trigger] after.callback_interfaces[i]).methods.len()
                        ==> settled_method(defs, #[trigger] after.callback_interfaces[i].methods[k]) by {
                    if i < m.callback_interfaces.len() {
                        assert(after.callback_interfaces[i] == m.callback_interfaces[i]);
                    }
                }
            },
            Definition::Typedef { name, attributes, type_ } => {},
        }
    }
}

/// Every type that a declaration of a built interface uses, for a field, an
/// argument or a result, is bound in the registry of the interface: each name in
/// it is bound to the type that occurs under the name.
pub proof fn law_built_is_settled(version: Seq<char>, defns: Seq<Definition>)
    requires
        build(version, defns) is Ok,
    ensures
        build(version, defns)->Ok_0.settled(),
        self_describing(build(version, defns)->Ok_0.types.definitions),
{
    let discovering = |u: UniverseModel, d: Definition| discover_step(u, d);
    lemma_try_each_keeps(
        no_types(),
        defns,
        discovering,
        |u: UniverseModel| self_describing(u.definitions),
    );
    let u = discover(no_types(), defns)->Ok_0;
    let start = blank(version, u);
    assert(sound(start));
    let detailing = |m: InterfaceModel, d: Definition| detail_step(m, d);
    assert forall|s: InterfaceModel, a: Definition|
        sound(s) && (#[trigger] detailing(s, a)) is Ok implies sound(detailing(s, a)->Ok_0) by {
        lemma_detail_step_is_sound(s, a);
    }
    lemma_try_each_keeps(start, defns, detailing, |m: InterfaceModel| sound(m));
    let m = detail(start, defns)->Ok_0;
    assert(sound(m));
    let built = m.derived();
    assert(built.settled());
}


/// The names of the declarations of an interface, by kind: of its records, its
/// enums, its error families, its objects and its callback interfaces.
pub open spec fn declared(m: InterfaceModel) -> Seq<Seq<Seq<char>>> {
    seq![
        Seq::new(m.records.len(), |i: int| m.records[i].name),
        Seq::new(m.enums.len(), |i: int| m.enums[i].name),
        Seq::new(m.errors.len(), |i: int| m.errors[i].name()),
        Seq::new(m.objects.len(), |i: int| m.objects[i].name),
        Seq::new(m.callback_interfaces.len(), |i: int| m.callback_interfaces[i].name),
    ]
}

/// The type that names the declaration `name` of the kind `kind`.
pub open spec fn naming(kind: int, name: Seq<char>) -> TypeModel {
    if kind == 0 {
        TypeModel::Record(name)
    } else if kind == 1 {
        TypeModel::Enum(name)
    } else if kind == 2 {
        TypeModel::Error(name)
    } else if kind == 3 {
        TypeModel::Object(name)
    } else {
        TypeModel::CallbackInterface(name)
    }
}

/// The kind of declaration that a type names, where it names one.
pub open spec fn kind_of(t: TypeModel) -> Option<int> {
    match t {
        TypeModel::Record(_) => Some(0),
        TypeModel::Enum(_) => Some(1),
        TypeModel::Error(_) => Some(2),
        TypeModel::Object(_) => Some(3),
        TypeModel::CallbackInterface(_) => Some(4),
        _ => None,
    }
}

/// The type that names what a declaration declares: a record for a
/// dictionary, an enum or an error family for an enum, one of these or an object
/// for an interface, a callback interface for one. A namespace and a typedef
/// declare nothing of these kinds.
pub open spec fn declares(d: Definition) -> Option<TypeModel> {
    match d {
        Definition::Namespace { name, functions } => None,
        Definition::Dictionary { name, fields } => Some(TypeModel::Record(name@)),
        Definition::Enum { name, attributes, variants } => match accept_all(
            AttributeTarget::Enum,
            attributes,
        ) {
            Err(_) => None,
            Ok(attrs) => if attrs.contains(AttributeModel::Error) {
                Some(TypeModel::Error(name@))
            } else {
                Some(TypeModel::Enum(name@))
            },
        },
        Definition::Interface { name, attributes, constructors, members } => match accept_all(
            AttributeTarget::Interface,
            attributes,
        ) {
            Err(_) => None,
            Ok(attrs) => if attrs.contains(AttributeModel::Enum) {
                Some(TypeModel::Enum(name@))
            } else if attrs.contains(AttributeModel::Error) {
                Some(TypeModel::Error(name@))
            } else {
                Some(TypeModel::Object(name@))
            },
        },
        Definition::CallbackInterface { name, methods } => Some(
            TypeModel::CallbackInterface(name@),
        ),
        Definition::Typedef { name, attributes, type_ } => None,
    }
}

impl InterfaceModel {
    /// Whether the declarations and the registry agree: every declaration is
    /// bound under its name to the type that names it, no two declarations of
    /// a kind bear the same name, and every name that is bound to a type that
    /// names a declaration has its declaration.
    pub open spec fn registered(self) -> bool {
        let d = self.types.definitions;
        let lists = declared(self);
        &&& forall|kind: int, i: int|
            0 <= kind < 5 && 0 <= i < lists[kind].len() ==> d.contains_key(
                #[trigger] lists[kind][i],
            ) && d[lists[kind][i]] == naming(kind, lists[kind][i])
        &&& forall|kind: int| 0 <= kind < 5 ==> (#[trigger] lists[kind]).no_duplicates()
        &&& forall|n: Seq<char>| #[trigger]
            d.contains_key(n) ==> (kind_of(d[n]) matches Some(kind) ==> lists[kind].contains(n))
    }
}

/// What the first pass binds for the first `k` declarations: what each of
/// them declares, under the name that it introduces; and a custom or an
/// external type for each typedef. No two of them introduce the same name.
pub proof fn lemma_discovered(defns: Seq<Definition>, k: int)
    requires
        0 <= k <= defns.len(),
        discover(no_types(), defns.take(k)) is Ok,
    ensures
        forall|j: int|
            0 <= j < k && declares(#[trigger] defns[j]) is Some ==> binding(
                discover(no_types(), defns.take(k))->Ok_0.definitions,
                introduced(defns[j])->0,
            ) == declares(defns[j]) && registered_name(declares(defns[j])->0)
                == introduced(defns[j]) && discover(
                no_types(),
                defns.take(k),
            )->Ok_0.definitions.contains_key(introduced(defns[j])->0),
        forall|j: int|
            0 <= j < k && introduced(#[trigger] defns[j]) is Some ==> discover(
                no_types(),
                defns.take(k),
            )->Ok_0.definitions.contains_key(introduced(defns[j])->0),
        forall|j: int|
            0 <= j < k && declares(#[trigger] defns[j]) is None ==> defns[j] is Namespace
                || defns[j] is Typedef,
        forall|n: Seq<char>| #[trigger]
            discover(no_types(), defns.take(k))->Ok_0.definitions.contains_key(n)
                ==> builtin_type(n) is None,
        forall|j: int|
            0 <= j < k && (#[trigger] defns[j]) is Typedef ==> kind_of(
                discover(no_types(), defns.take(k))->Ok_0.definitions[introduced(
                    defns[j],
                )->0],
            ) is None,
        forall|i: int, j: int|
            0 <= i < j < k && introduced(#[trigger] defns[i]) is Some
                && introduced(#[trigger] defns[j]) is Some
                ==> introduced(defns[i]) != introduced(defns[j]),
    decreases k,
{
    let step = |u: UniverseModel, d: Definition| discover_step(u, d);
    if k > 0 {
        lemma_try_each_step(no_types(), defns, step, k - 1);
        assert(defns.take(k - 1 + 1) =~= defns.take(k));
        let before = discover(no_types(), defns.take(k - 1))->Ok_0;
        let after = discover(no_types(), defns.take(k))->Ok_0;
        lemma_discovered(defns, k - 1);
        lemma_discover_prefix(defns, k - 1);
        lemma_discover_step(before, defns[k - 1]);
        assert(after == discover_step(before, defns[k - 1])->Ok_0);
        lemma_try_each_keeps(
            no_types(),
            defns.take(k - 1),
            step,
            |u: UniverseModel|
                forall|n: Seq<char>| #[trigger]
                    u.definitions.contains_key(n) ==> builtin_type(n) is None,
        );
        assert forall|j: int| 0 <= j < k && declares(#[trigger] defns[j]) is Some implies binding(
            after.definitions,
            introduced(defns[j])->0,
        ) == declares(defns[j]) && registered_name(declares(defns[j])->0)
            == introduced(defns[j]) && after.definitions.contains_key(
            introduced(defns[j])->0,
        ) by {
            if j < k - 1 {
                let n = introduced(defns[j])->0;
                assert(before.definitions.contains_key(n));
            }
        }
        assert forall|j: int|
            0 <= j < k && introduced(
                #[trigger] defns[j],
            ) is Some implies after.definitions.contains_key(
            introduced(defns[j])->0,
        ) by {
            if j < k - 1 {
                let n = introduced(defns[j])->0;
                assert(before.definitions.contains_key(n));
            }
        }
        assert forall|j: int| 0 <= j < k && (#[trigger] defns[j]) is Typedef implies kind_of(
            after.definitions[introduced(defns[j])->0],
        ) is None by {
            if j < k - 1 {
                let n = introduced(defns[j])->0;
                assert(before.definitions.contains_key(n));
            }
        }
        assert forall|i: int, j: int|
            0 <= i < j < k && introduced(#[trigger] defns[i]) is Some
                && introduced(
                #[trigger] defns[j],
            ) is Some implies introduced(defns[i]) != introduced(
            defns[j],
        ) by {
            if j == k - 1 {
                let n = introduced(defns[i])->0;
                assert(binding(before.definitions, n) is Some);
            }
        }
    } else {
        assert(defns.take(0) =~= Seq::<Definition>::empty());
    }
}


/// Whether two interfaces have the same declarations of the kinds that types name.
pub open spec fn same_declarations(a: InterfaceModel, b: InterfaceModel) -> bool {
    &&& a.records == b.records
    &&& a.enums == b.enums
    &&& a.errors == b.errors
    &&& a.objects == b.objects
    &&& a.callback_interfaces == b.callback_interfaces
}

/// Interfaces with the same declarations have the same names declared.
pub proof fn lemma_same_declared(a: InterfaceModel, b: InterfaceModel)
    requires
        same_declarations(a, b),
    ensures
        declared(a) == declared(b),
{
    assert(declared(a)[0] =~= declared(b)[0]);
    assert(declared(a)[1] =~= declared(b)[1]);
    assert(declared(a)[2] =~= declared(b)[2]);
    assert(declared(a)[3] =~= declared(b)[3]);
    assert(declared(a)[4] =~= declared(b)[4]);
    assert(declared(a) =~= declared(b));
}

/// What the second pass does with one declaration: it leaves the bindings as
/// they are, and adds the name of what the declaration declares to the names
/// of its kind.
pub proof fn lemma_detail_step_declares(m: InterfaceModel, d: Definition)
    requires
        detail_step(m, d) is Ok,
    ensures
        match declares(d) {
            Some(t) => kind_of(t) is Some && registered_name(t) == introduced(d)
                && declared(detail_step(m, d)->Ok_0) == declared(m).update(
                kind_of(t)->0,
                declared(m)[kind_of(t)->0].push(registered_name(t)->0),
            ),
            None => declared(detail_step(m, d)->Ok_0) == declared(m),
        },
{
    let after = detail_step(m, d)->Ok_0;
    match d {
        Definition::Namespace { name, functions } => {
            let named = with_namespace(m, name@)->Ok_0;
            let (fs, u) = functions_of(named.types, functions@)->Ok_0;
            let start = InterfaceModel { types: u, ..named };
            lemma_try_each_keeps(
                start,
                fs,
                |m: InterfaceModel, f: FunctionModel| with_function(m, f),
                |x: InterfaceModel| same_declarations(x, m),
            );
            lemma_same_declared(after, m);
        },
        Definition::Typedef { name, attributes, type_ } => {},
        _ => {
            let t = declares(d)->0;
            let kind = kind_of(t)->0;
            let n = registered_name(t)->0;
            let expected = declared(m).update(kind, declared(m)[kind].push(n));
            assert(declared(after)[0] =~= expected[0]);
            assert(declared(after)[1] =~= expected[1]);
            assert(declared(after)[2] =~= expected[2]);
            assert(declared(after)[3] =~= expected[3]);
            assert(declared(after)[4] =~= expected[4]);
            assert(declared(after) =~= expected);
        },
    }
}

/// Whether an interface has no declaration of the kinds that types name.
pub open spec fn nothing_declared(m: InterfaceModel) -> bool {
    forall|kind: int| 0 <= kind < 5 ==> (#[trigger] declared(m)[kind]).len() == 0
}

/// What the second pass has declared after the first `k` declarations: what
/// each of them declares, once, and nothing else.
pub proof fn lemma_detailed(start: InterfaceModel, defns: Seq<Definition>, k: int)
    requires
        0 <= k <= defns.len(),
        nothing_declared(start),
        discover(no_types(), defns) is Ok,
        detail(start, defns.take(k)) is Ok,
    ensures
        forall|j: int|
            0 <= j < k && declares(#[trigger] defns[j]) is Some ==> declared(
                detail(start, defns.take(k))->Ok_0,
            )[kind_of(declares(defns[j])->0)->0].contains(
                registered_name(declares(defns[j])->0)->0,
            ),
        forall|kind: int, i: int|
            0 <= kind < 5 && 0 <= i < declared(detail(start, defns.take(k))->Ok_0)[kind].len()
                ==> exists|j: int|
                0 <= j < k && declares(#[trigger] defns[j]) == Some(
                    naming(kind, #[trigger] declared(detail(start, defns.take(k))->Ok_0)[kind][i]),
                ),
        forall|kind: int|
            0 <= kind < 5 ==> (#[trigger] declared(
                detail(start, defns.take(k))->Ok_0,
            )[kind]).no_duplicates(),
    decreases k,
{
    let step = |m: InterfaceModel, d: Definition| detail_step(m, d);
    if k > 0 {
        lemma_try_each_step(start, defns, step, k - 1);
        assert(defns.take(k - 1 + 1) =~= defns.take(k));
        let before = detail(start, defns.take(k - 1))->Ok_0;
        let after = detail(start, defns.take(k))->Ok_0;
        let d = defns[k - 1];
        lemma_detailed(start, defns, k - 1);
        assert(after == detail_step(before, d)->Ok_0);
        lemma_detail_step_declares(before, d);
        assert(defns.take(defns.len() as int) =~= defns);
        lemma_discovered(defns, defns.len() as int);
        let old_lists = declared(before);
        let new_lists = declared(after);
        match declares(d) {
            Some(t) => {
                let c = kind_of(t)->0;
                let n = registered_name(t)->0;
                assert(new_lists == old_lists.update(c, old_lists[c].push(n)));
                assert(t == naming(c, n));
                lemma_push_names(old_lists[c], n);
                assert forall|j: int|
                    0 <= j < k && declares(#[trigger] defns[j]) is Some implies new_lists[kind_of(
                    declares(defns[j])->0,
                )->0].contains(registered_name(declares(defns[j])->0)->0) by {
                    let tj = declares(defns[j])->0;
                    let cj = kind_of(tj)->0;
                    if j < k - 1 {
                        assert(old_lists[cj].contains(registered_name(tj)->0));
                    }
                }
                assert forall|kind: int, i: int|
                    0 <= kind < 5 && 0 <= i < new_lists[kind].len() implies exists|j: int|
                    0 <= j < k && declares(#[trigger] defns[j]) == Some(
                        naming(kind, #[trigger] new_lists[kind][i]),
                    ) by {
                    if kind == c && i == old_lists[c].len() {
                        assert(declares(defns[k - 1]) == Some(naming(kind, new_lists[kind][i])));
                    } else {
                        assert(new_lists[kind][i] == old_lists[kind][i]);
                        let j = choose|j: int|
                            0 <= j < k - 1 && declares(#[trigger] defns[j]) == Some(
                                naming(kind, old_lists[kind][i]),
                            );
                        assert(declares(defns[j]) == Some(naming(kind, new_lists[kind][i])));
                    }
                }
                assert forall|kind: int| 0 <= kind < 5 implies (
                #[trigger] new_lists[kind]).no_duplicates() by {
                    if kind == c {
                        assert forall|i: int| 0 <= i < old_lists[c].len() implies old_lists[c][i]
                            != n by {
                            let j = choose|j: int|
                                0 <= j < k - 1 && declares(#[trigger] defns[j]) == Some(
                                    naming(c, old_lists[c][i]),
                                );
                            assert(introduced(defns[j]) == Some(old_lists[c][i]));
                            assert(introduced(defns[k - 1]) == Some(n));
                        }
                    } else {
                        assert(new_lists[kind] == old_lists[kind]);
                    }
                }
            },
            None => {
                assert(new_lists == old_lists);
                assert forall|kind: int, i: int|
                    0 <= kind < 5 && 0 <= i < new_lists[kind].len() implies exists|j: int|
                    0 <= j < k && declares(#[trigger] defns[j]) == Some(
                        naming(kind, #[trigger] new_lists[kind][i]),
                    ) by {
                    let j = choose|j: int|
                        0 <= j < k - 1 && declares(#[trigger] defns[j]) == Some(
                            naming(kind, old_lists[kind][i]),
                        );
                    assert(declares(defns[j]) == Some(naming(kind, new_lists[kind][i])));
                }
            },
        }
    } else {
        assert(defns.take(0) =~= Seq::<Definition>::empty());
    }
}

/// The names of a list with one more name: what they hold, and when none of
/// them occurs twice.
pub proof fn lemma_push_names(names: Seq<Seq<char>>, n: Seq<char>)
    ensures
        forall|x: Seq<char>| #[trigger] names.push(n).contains(x) <==> names.contains(x) || x == n,
        names.no_duplicates() && (forall|i: int| 0 <= i < names.len() ==> names[i] != n)
            ==> names.push(n).no_duplicates(),
{
    lemma_push_contains(names, n);
}

/// To derive the low-level functions leaves the names declared as they are.
pub proof fn lemma_derived_declared(m: InterfaceModel)
    ensures
        declared(m.derived()) == declared(m),
        m.derived().types == m.types,
{
    let built = m.derived();
    assert(declared(built)[0] =~= declared(m)[0]);
    assert(declared(built)[1] =~= declared(m)[1]);
    assert(declared(built)[2] =~= declared(m)[2]);
    assert(declared(built)[3] =~= declared(m)[3]);
    assert(declared(built)[4] =~= declared(m)[4]);
    assert(declared(built) =~= declared(m));
}

/// Every declaration is bound under its name to the type that names it.
proof fn lemma_declarations_are_bound(
    defns: Seq<Definition>,
    d: Map<Seq<char>, TypeModel>,
    lists: Seq<Seq<Seq<char>>>,
    kind: int,
    i: int,
)
    requires
        lists.len() == 5,
        0 <= kind < 5,
        0 <= i < lists[kind].len(),
        forall|j: int|
            0 <= j < defns.len() && declares(#[trigger] defns[j]) is Some ==> binding(
                d,
                introduced(defns[j])->0,
            ) == declares(defns[j]) && registered_name(declares(defns[j])->0)
                == introduced(defns[j]) && d.contains_key(
                introduced(defns[j])->0,
            ),
        forall|n: Seq<char>| #[trigger] d.contains_key(n) ==> builtin_type(n) is None,
        exists|j: int|
            0 <= j < defns.len() && declares(#[trigger] defns[j]) == Some(
                naming(kind, lists[kind][i]),
            ),
    ensures
        d.contains_key(lists[kind][i]),
        d[lists[kind][i]] == naming(kind, lists[kind][i]),
{
    let name = lists[kind][i];
    let j = choose|j: int|
        0 <= j < defns.len() && declares(#[trigger] defns[j]) == Some(naming(kind, name));
    assert(registered_name(naming(kind, name)) == Some(name));
    assert(introduced(defns[j]) == Some(name));
    assert(binding(d, name) == declares(defns[j]));
}

/// Every name that is bound to a type that names a declaration has its declaration.
proof fn lemma_bindings_are_declared(
    defns: Seq<Definition>,
    d: Map<Seq<char>, TypeModel>,
    lists: Seq<Seq<Seq<char>>>,
    name: Seq<char>,
)
    requires
        lists.len() == 5,
        d.contains_key(name),
        kind_of(d[name]) is Some,
        forall|j: int|
            0 <= j < defns.len() && declares(#[trigger] defns[j]) is Some ==> binding(
                d,
                introduced(defns[j])->0,
            ) == declares(defns[j]) && registered_name(declares(defns[j])->0)
                == introduced(defns[j]) && d.contains_key(
                introduced(defns[j])->0,
            ),
        forall|j: int|
            0 <= j < defns.len() && declares(#[trigger] defns[j]) is None
                ==> defns[j] is Namespace || defns[j] is Typedef,
        forall|j: int|
            0 <= j < defns.len() && (#[trigger] defns[j]) is Typedef ==> kind_of(
                d[introduced(defns[j])->0],
            ) is None,
        forall|n: Seq<char>| #[trigger] d.contains_key(n) ==> builtin_type(n) is None,
        exists|j: int|
            0 <= j < defns.len() && introduced(#[trigger] defns[j]) == Some(name),
        forall|j: int|
            0 <= j < defns.len() && declares(#[trigger] defns[j]) is Some ==> lists[kind_of(
                declares(defns[j])->0,
            )->0].contains(registered_name(declares(defns[j])->0)->0),
    ensures
        lists[kind_of(d[name])->0].contains(name),
{
    let j = choose|j: int|
        0 <= j < defns.len() && introduced(#[trigger] defns[j]) == Some(name);
    if declares(defns[j]) is Some {
        assert(binding(d, name) == declares(defns[j]));
        assert(d[name] == declares(defns[j])->0);
    } else {
        assert(defns[j] is Typedef);
    }
}

/// The declarations of an interface after both passes agree with its registry.
proof fn lemma_passes_register(version: Seq<char>, defns: Seq<Definition>)
    requires
        discover(no_types(), defns) is Ok,
        detail(blank(version, discover(no_types(), defns)->Ok_0), defns) is Ok,
    ensures
        detail(blank(version, discover(no_types(), defns)->Ok_0), defns)->Ok_0.registered(),
{
    let u = discover(no_types(), defns)->Ok_0;
    let start = blank(version, u);
    let m = detail(start, defns)->Ok_0;
    let n = defns.len() as int;
    assert(defns.take(n) =~= defns);
    assert(nothing_declared(start));
    lemma_discovered(defns, n);
    lemma_discover_prefix(defns, n);
    lemma_detailed(start, defns, n);
    law_detail_binds_nothing(start, defns);
    let d = m.types.definitions;
    let lists = declared(m);
    assert forall|kind: int, i: int|
        0 <= kind < 5 && 0 <= i < lists[kind].len() implies d.contains_key(
        #[trigger] lists[kind][i],
    ) && d[lists[kind][i]] == naming(kind, lists[kind][i]) by {
        lemma_declarations_are_bound(defns, d, lists, kind, i);
    }
    assert forall|name: Seq<char>| #[trigger] d.contains_key(name) implies (kind_of(
        d[name],
    ) matches Some(kind) ==> lists[kind].contains(name)) by {
        if kind_of(d[name]) is Some {
            lemma_bindings_are_declared(defns, d, lists, name);
        }
    }
}

/// The declarations of a built interface and its registry agree: every
/// declaration is bound under its name to the type that names it, no two
/// declarations of a kind bear the same name, and every name that is bound to a
/// type that names a declaration has exactly that declaration.
pub proof fn law_built_is_registered(version: Seq<char>, defns: Seq<Definition>)
    requires
        build(version, defns) is Ok,
    ensures
        build(version, defns)->Ok_0.registered(),
{
    let u = discover(no_types(), defns)->Ok_0;
    let m = detail(blank(version, u), defns)->Ok_0;
    lemma_passes_register(version, defns);
    lemma_derived_declared(m);
    assert(build(version, defns)->Ok_0 == m.derived());
}

} // verus!
