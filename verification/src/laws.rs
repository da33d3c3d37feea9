//! What holds of every interface: the checksum depends on the high-level
//! content alone, the derivation of the low-level functions can be repeated
//! without effect, and names may be used before they are declared.

use vstd::prelude::*;
use crate::builder::{
    argument_of, arguments_of, blank, build, constructor_of, constructors_of, detail,
    detail_step, discover, discover_step, field_of, fields_of, function_of, functions_of,
    method_of, methods_of, resolved_optional, variant_field_of, variant_fields_of, variant_of,
    variants_of,
    with_function, with_namespace,
};
use crate::callbacks::CallbackInterfaceModel;
use crate::enum_::{EnumModel, VariantModel};
use crate::failure::Failure;
use crate::ffi::FFIFunctionModel;
use crate::fold::{
    lemma_flat_map_views, lemma_try_each_keeps, lemma_try_each_step, lemma_try_fold_keeps,
};
use crate::function::FunctionModel;
use crate::interface::InterfaceModel;
use crate::object::{ConstructorModel, MethodModel, ObjectModel};
use crate::record::FieldModel;
use crate::syntax::{ArgumentNode, ConstructorNode, Definition, FieldNode, OperationNode};
use crate::types::{builtin_type, TypeModel};
use crate::fold::{try_each, try_fold};
use crate::universe::{binding, resolve, TypeExpr, UniverseModel};

verus! {

impl FunctionModel {
    /// The function without what was derived from it.
    pub open spec fn content(self) -> FunctionModel {
        FunctionModel { ffi_func: FFIFunctionModel::empty(), ..self }
    }
}

impl ConstructorModel {
    /// The constructor without what was derived from it.
    pub open spec fn content(self) -> ConstructorModel {
        ConstructorModel { ffi_func: FFIFunctionModel::empty(), ..self }
    }
}

impl MethodModel {
    /// The method without what was derived from it.
    pub open spec fn content(self) -> MethodModel {
        MethodModel { ffi_func: FFIFunctionModel::empty(), ..self }
    }
}

impl ObjectModel {
    /// The object without what was derived from it.
    pub open spec fn content(self) -> ObjectModel {
        ObjectModel {
            ffi_func_free: FFIFunctionModel::empty(),
            constructors: self.constructors.map_values(|c: ConstructorModel| c.content()),
            methods: self.methods.map_values(|m: MethodModel| m.content()),
            ..self
        }
    }

    /// What was derived from an object is no part of what it hands to a hasher.
    pub proof fn lemma_content_writes(self)
        ensures
            self.content().writes() == self.writes(),
    {
        lemma_flat_map_views(
            self.constructors,
            |c: ConstructorModel| c.content(),
            |x: ConstructorModel| x.writes(),
            |x: ConstructorModel| x.writes(),
        );
        lemma_flat_map_views(
            self.methods,
            |m: MethodModel| m.content(),
            |x: MethodModel| x.writes(),
            |x: MethodModel| x.writes(),
        );
    }

    /// The content of an object is the content of the object with its low-level
    /// functions derived.
    pub proof fn lemma_derived_content(self, prefix: Seq<char>)
        ensures
            self.derived(prefix).content() == self.content(),
    {
        assert(self.derived(prefix).content().constructors =~= self.content().constructors);
        assert(self.derived(prefix).content().methods =~= self.content().methods);
    }

    /// To derive the low-level functions of an object again changes nothing.
    pub proof fn lemma_derived_again(self, prefix: Seq<char>)
        ensures
            self.derived(prefix).derived(prefix) == self.derived(prefix),
    {
        assert(self.derived(prefix).derived(prefix).constructors =~= self.derived(
            prefix,
        ).constructors);
        assert(self.derived(prefix).derived(prefix).methods =~= self.derived(prefix).methods);
    }
}

impl CallbackInterfaceModel {
    /// The callback interface without what was derived from it.
    pub open spec fn content(self) -> CallbackInterfaceModel {
        CallbackInterfaceModel {
            ffi_init_callback: FFIFunctionModel::empty(),
            methods: self.methods.map_values(|m: MethodModel| m.content()),
            ..self
        }
    }

    /// What was derived from a callback interface is no part of what it hands
    /// to a hasher.
    pub proof fn lemma_content_writes(self)
        ensures
            self.content().writes() == self.writes(),
    {
        lemma_flat_map_views(
            self.methods,
            |m: MethodModel| m.content(),
            |x: MethodModel| x.writes(),
            |x: MethodModel| x.writes(),
        );
    }
}

impl InterfaceModel {
    /// The high-level content of the interface: its version, its namespace and
    /// its declarations, without the registry of types and without anything
    /// that was derived.
    pub open spec fn content(self) -> InterfaceModel {
        InterfaceModel {
            types: UniverseModel { definitions: Map::empty(), known: Seq::empty() },
            functions: self.functions.map_values(|f: FunctionModel| f.content()),
            objects: self.objects.map_values(|o: ObjectModel| o.content()),
            callback_interfaces: self.callback_interfaces.map_values(
                |c: CallbackInterfaceModel| c.content(),
            ),
            ..self
        }
    }

    /// What an interface hands to a hasher is what its content hands to it.
    pub proof fn lemma_content_writes(self)
        ensures
            self.content().writes() == self.writes(),
    {
        lemma_flat_map_views(
            self.functions,
            |f: FunctionModel| f.content(),
            |x: FunctionModel| x.writes(),
            |x: FunctionModel| x.writes(),
        );
        assert forall|o: ObjectModel| #[trigger] o.writes() == o.content().writes() by {
            o.lemma_content_writes();
        }
        lemma_flat_map_views(
            self.objects,
            |o: ObjectModel| o.content(),
            |x: ObjectModel| x.writes(),
            |x: ObjectModel| x.writes(),
        );
        assert forall|c: CallbackInterfaceModel| #[trigger] c.writes() == c.content().writes() by {
            c.lemma_content_writes();
        }
        lemma_flat_map_views(
            self.callback_interfaces,
            |c: CallbackInterfaceModel| c.content(),
            |x: CallbackInterfaceModel| x.writes(),
            |x: CallbackInterfaceModel| x.writes(),
        );
    }

    /// To derive the low-level functions leaves the content as it is.
    pub proof fn lemma_derived_content(self)
        ensures
            self.derived().content() == self.content(),
    {
        let prefix = self.ffi_namespace();
        assert(self.derived().content().functions =~= self.content().functions);
        assert(self.derived().content().objects =~= self.content().objects) by {
            assert forall|i: int| 0 <= i < self.objects.len() implies self.objects[i].derived(
                prefix,
            ).content() == #[trigger] self.objects[i].content() by {
                self.objects[i].lemma_derived_content(prefix);
            }
        }
        assert(self.derived().content().callback_interfaces
            =~= self.content().callback_interfaces);
    }
}

/// The checksum is a function of the high-level content: two interfaces with
/// the same version, namespace and declarations have the same checksum, and so
/// the same prefix for their symbols, whatever was derived from them and whatever
/// their registries hold.
pub proof fn law_checksum_of_content(a: InterfaceModel, b: InterfaceModel)
    requires
        a.content() == b.content(),
    ensures
        a.checksum() == b.checksum(),
        a.ffi_namespace() == b.ffi_namespace(),
{
    a.lemma_content_writes();
    b.lemma_content_writes();
}

/// The derived low-level functions never go into the checksum: to derive them
/// changes neither the checksum nor the prefix.
pub proof fn law_checksum_before_derivation(m: InterfaceModel)
    ensures
        m.derived().checksum() == m.checksum(),
        m.derived().ffi_namespace() == m.ffi_namespace(),
{
    m.lemma_derived_content();
    law_checksum_of_content(m.derived(), m);
}

/// To derive the low-level functions a second time changes nothing: every
/// symbol and every list of arguments stays as it is.
pub proof fn law_derivation_is_idempotent(m: InterfaceModel)
    ensures
        m.derived().derived() == m.derived(),
{
    law_checksum_before_derivation(m);
    let prefix = m.ffi_namespace();
    assert(m.derived().derived().functions =~= m.derived().functions);
    assert(m.derived().derived().objects =~= m.derived().objects) by {
        assert forall|i: int| 0 <= i < m.objects.len() implies m.objects[i].derived(
            prefix,
        ).derived(prefix) == #[trigger] m.objects[i].derived(prefix) by {
            m.objects[i].lemma_derived_again(prefix);
        }
    }
    assert(m.derived().derived().callback_interfaces =~= m.derived().callback_interfaces);
}

/// The low-level functions of a built interface are those that the interface
/// derives under its own prefix: to derive them again changes nothing.
pub proof fn law_built_is_derived(version: Seq<char>, defns: Seq<Definition>)
    requires
        build(version, defns) is Ok,
    ensures
        build(version, defns)->Ok_0.derived() == build(version, defns)->Ok_0,
{
    let u = discover(no_types(), defns)->Ok_0;
    let m = detail(blank(version, u), defns)->Ok_0;
    law_derivation_is_idempotent(m);
}

/// A variant with a field makes an enum not flat: to add a field to any variant
/// of any enum gives an enum that is not flat.
pub proof fn law_field_unflattens(e: EnumModel, i: int, f: FieldModel)
    requires
        0 <= i < e.variants.len(),
    ensures
        !(EnumModel {
            variants: e.variants.update(
                i,
                VariantModel { fields: e.variants[i].fields.push(f), ..e.variants[i] },
            ),
            ..e
        }).is_flat(),
{
    let changed = EnumModel {
        variants: e.variants.update(
            i,
            VariantModel { fields: e.variants[i].fields.push(f), ..e.variants[i] },
        ),
        ..e
    };
    assert(changed.variants[i].fields.len() > 0);
}

/// The constructors of an object are its primary constructors and its
/// alternates: an object without constructors has neither, a constructor named
/// `new` is never an alternate, and every other constructor is one.
pub proof fn law_constructors(o: ObjectModel)
    ensures
        o.constructors.len() == 0 ==> o.alternates().len() == 0 && forall|i: int|
            !o.is_primary_at(i),
        forall|c: ConstructorModel| #[trigger]
            o.alternates().contains(c) <==> o.constructors.contains(c) && c.name != "new"@,
{
    reveal(Seq::filter);
    let keep = |c: ConstructorModel| !c.is_primary();
    assert forall|c: ConstructorModel| #[trigger]
        o.alternates().contains(c) <==> o.constructors.contains(c) && c.name != "new"@ by {
        if o.alternates().contains(c) {
            o.constructors.lemma_filter_contains_rev(keep, c);
            let k = choose|k: int| 0 <= k < o.alternates().len() && o.alternates()[k] == c;
            o.constructors.lemma_filter_pred(keep, k);
        }
        if o.constructors.contains(c) && c.name != "new"@ {
            let k = choose|k: int| 0 <= k < o.constructors.len() && o.constructors[k] == c;
            o.constructors.lemma_filter_contains(keep, k);
        }
    }
}

/// An interface that was built is consistent: it has a namespace, and none of
/// the variants of its enums bears the name of a declared type.
pub proof fn law_built_is_consistent(version: Seq<char>, defns: Seq<Definition>)
    requires
        build(version, defns) is Ok,
    ensures
        build(version, defns)->Ok_0.inconsistency() is None,
        build(version, defns)->Ok_0.namespace.len() > 0,
{
    let u = discover(no_types(), defns)->Ok_0;
    let m = detail(blank(version, u), defns)->Ok_0;
    assert(m.derived().shadowed() == m.shadowed());
}

/// The name that a declaration introduces. A namespace introduces none.
pub open spec fn introduced(d: Definition) -> Option<Seq<char>> {
    match d {
        Definition::Namespace { name, functions } => None,
        Definition::Dictionary { name, fields } => Some(name@),
        Definition::Enum { name, attributes, variants } => Some(name@),
        Definition::Interface { name, attributes, constructors, members } => Some(name@),
        Definition::CallbackInterface { name, methods } => Some(name@),
        Definition::Typedef { name, attributes, type_ } => Some(name@),
    }
}

/// A registry without a binding.
pub open spec fn no_types() -> UniverseModel {
    UniverseModel { definitions: Map::empty(), known: Seq::empty() }
}

/// Whether `later` binds every name that `earlier` binds, to the same type.
pub open spec fn keeps_bindings(earlier: UniverseModel, later: UniverseModel) -> bool {
    forall|n: Seq<char>| #[trigger]
        earlier.definitions.contains_key(n) ==> later.definitions.contains_key(n)
            && later.definitions[n] == earlier.definitions[n]
}

/// What the first pass does with one declaration: the name that the declaration
/// introduces is bound afterwards, what was bound stays bound, and no other name
/// is bound.
pub proof fn lemma_discover_step(u: UniverseModel, d: Definition)
    requires
        discover_step(u, d) is Ok,
    ensures
        introduced(d) matches Some(n) ==> binding(discover_step(u, d)->Ok_0.definitions, n)
            is Some,
        keeps_bindings(u, discover_step(u, d)->Ok_0),
        forall|n: Seq<char>| #[trigger]
            discover_step(u, d)->Ok_0.definitions.contains_key(n) ==> u.definitions.contains_key(
                n,
            ) || introduced(d) == Some(n),
{
}

/// What the first pass does with the first `k` declarations.
pub proof fn lemma_discover_prefix(defns: Seq<Definition>, k: int)
    requires
        0 <= k <= defns.len(),
        discover(no_types(), defns.take(k)) is Ok,
    ensures
        forall|j: int|
            0 <= j < k && introduced(#[trigger] defns[j]) is Some ==> binding(
                discover(no_types(), defns.take(k))->Ok_0.definitions,
                introduced(defns[j])->0,
            ) is Some,
        forall|n: Seq<char>| #[trigger]
            discover(no_types(), defns.take(k))->Ok_0.definitions.contains_key(n) ==> exists|
                j: int,
            | 0 <= j < k && introduced(#[trigger] defns[j]) == Some(n),
    decreases k,
{
    let step = |u: UniverseModel, d: Definition| discover_step(u, d);
    if k > 0 {
        lemma_try_each_step(no_types(), defns, step, k - 1);
        assert(defns.take(k - 1 + 1) =~= defns.take(k));
        let before = discover(no_types(), defns.take(k - 1))->Ok_0;
        let after = discover(no_types(), defns.take(k))->Ok_0;
        lemma_discover_prefix(defns, k - 1);
        lemma_discover_step(before, defns[k - 1]);
        assert(after == discover_step(before, defns[k - 1])->Ok_0);
        assert forall|n: Seq<char>| #[trigger] after.definitions.contains_key(n) implies exists|
            j: int,
        | 0 <= j < k && introduced(#[trigger] defns[j]) == Some(n) by {
            if before.definitions.contains_key(n) {
                let j = choose|j: int| 0 <= j < k - 1 && introduced(#[trigger] defns[j]) == Some(n);
                assert(introduced(defns[j]) == Some(n));
            } else {
                assert(introduced(defns[k - 1]) == Some(n));
            }
        }
    } else {
        assert(defns.take(0) =~= Seq::<Definition>::empty());
    }
}

/// Names may be used before they are declared: once the first pass has gone
/// through a list of declarations, the name that any of them introduces
/// resolves, wherever in the list the declaration stands.
pub proof fn law_declared_names_resolve(defns: Seq<Definition>, i: int, name: String)
    requires
        0 <= i < defns.len(),
        introduced(defns[i]) == Some(name@),
        discover(no_types(), defns) is Ok,
    ensures
        resolve(discover(no_types(), defns)->Ok_0.definitions, TypeExpr::Named(name)) is Ok,
{
    assert(defns.take(defns.len() as int) =~= defns);
    lemma_discover_prefix(defns, defns.len() as int);
}

/// A name that is not built in, and that no declaration of the list introduces,
/// does not resolve after the first pass, whatever the order of the declarations.
pub proof fn law_undeclared_names_fail(defns: Seq<Definition>, name: String)
    requires
        builtin_type(name@) is None,
        forall|i: int| 0 <= i < defns.len() ==> introduced(#[trigger] defns[i]) != Some(name@),
        discover(no_types(), defns) is Ok,
    ensures
        resolve(discover(no_types(), defns)->Ok_0.definitions, TypeExpr::Named(name)) == Err::<
            TypeModel,
            Failure,
        >(Failure::UnknownType(name@)),
{
    assert(defns.take(defns.len() as int) =~= defns);
    lemma_discover_prefix(defns, defns.len() as int);
}

/// Whether a registry binds what `definitions` binds.
pub open spec fn binds(definitions: Map<Seq<char>, TypeModel>) -> spec_fn(UniverseModel) -> bool {
    |u: UniverseModel| u.definitions == definitions
}

/// To fill in arguments binds no name.
pub proof fn lemma_arguments_bind_nothing(u: UniverseModel, nodes: Seq<ArgumentNode>)
    ensures
        arguments_of(u, nodes) is Ok ==> arguments_of(u, nodes)->Ok_0.1.definitions
            == u.definitions,
        variant_fields_of(u, nodes) is Ok ==> variant_fields_of(u, nodes)->Ok_0.1.definitions
            == u.definitions,
{
    lemma_try_fold_keeps(
        u,
        nodes,
        |u: UniverseModel, n: ArgumentNode| argument_of(u, n),
        binds(u.definitions),
    );
    lemma_try_fold_keeps(
        u,
        nodes,
        |u: UniverseModel, n: ArgumentNode| variant_field_of(u, n),
        binds(u.definitions),
    );
}

/// To fill in the functions of a namespace binds no name.
pub proof fn lemma_functions_bind_nothing(u: UniverseModel, nodes: Seq<OperationNode>)
    ensures
        functions_of(u, nodes) is Ok ==> functions_of(u, nodes)->Ok_0.1.definitions
            == u.definitions,
{
    let kept = binds(u.definitions);
    let step = |u: UniverseModel, n: OperationNode| function_of(u, n);
    assert forall|s: UniverseModel, a: OperationNode|
        kept(s) && (#[trigger] step(s, a)) is Ok implies kept(step(s, a)->Ok_0.1) by {
        let first = resolved_optional(s, a.return_type)->Ok_0.1;
        lemma_arguments_bind_nothing(first, a.arguments@);
    }
    lemma_try_fold_keeps(u, nodes, step, kept);
}

/// To fill in methods binds no name.
pub proof fn lemma_methods_bind_nothing(
    u: UniverseModel,
    object: Seq<char>,
    nodes: Seq<OperationNode>,
)
    ensures
        methods_of(u, object, nodes) is Ok ==> methods_of(u, object, nodes)->Ok_0.1.definitions
            == u.definitions,
{
    let kept = binds(u.definitions);
    let step = |u: UniverseModel, n: OperationNode| method_of(u, object, n);
    assert forall|s: UniverseModel, a: OperationNode|
        kept(s) && (#[trigger] step(s, a)) is Ok implies kept(step(s, a)->Ok_0.1) by {
        let first = resolved_optional(s, a.return_type)->Ok_0.1;
        lemma_arguments_bind_nothing(first, a.arguments@);
    }
    lemma_try_fold_keeps(u, nodes, step, kept);
}

/// To fill in constructors binds no name.
pub proof fn lemma_constructors_bind_nothing(u: UniverseModel, nodes: Seq<ConstructorNode>)
    ensures
        constructors_of(u, nodes) is Ok ==> constructors_of(u, nodes)->Ok_0.1.definitions
            == u.definitions,
{
    let kept = binds(u.definitions);
    let step = |u: UniverseModel, n: ConstructorNode| constructor_of(u, n);
    assert forall|s: UniverseModel, a: ConstructorNode|
        kept(s) && (#[trigger] step(s, a)) is Ok implies kept(step(s, a)->Ok_0.1) by {
        lemma_arguments_bind_nothing(s, a.arguments@);
    }
    lemma_try_fold_keeps(u, nodes, step, kept);
}

/// To fill in the fields of a dictionary binds no name.
pub proof fn lemma_fields_bind_nothing(u: UniverseModel, nodes: Seq<FieldNode>)
    ensures
        fields_of(u, nodes) is Ok ==> fields_of(u, nodes)->Ok_0.1.definitions == u.definitions,
{
    lemma_try_fold_keeps(
        u,
        nodes,
        |u: UniverseModel, n: FieldNode| field_of(u, n),
        binds(u.definitions),
    );
}

/// To fill in the variants of a tagged union binds no name.
pub proof fn lemma_variants_bind_nothing(u: UniverseModel, nodes: Seq<OperationNode>)
    ensures
        variants_of(u, nodes) is Ok ==> variants_of(u, nodes)->Ok_0.1.definitions
            == u.definitions,
{
    let kept = binds(u.definitions);
    let step = |u: UniverseModel, n: OperationNode| variant_of(u, n);
    assert forall|s: UniverseModel, a: OperationNode|
        kept(s) && (#[trigger] step(s, a)) is Ok implies kept(step(s, a)->Ok_0.1) by {
        lemma_arguments_bind_nothing(s, a.arguments@);
    }
    lemma_try_fold_keeps(u, nodes, step, kept);
}

/// What the second pass does with one declaration binds no name.
pub proof fn lemma_detail_step_binds_nothing(m: InterfaceModel, d: Definition)
    ensures
        detail_step(m, d) is Ok ==> detail_step(m, d)->Ok_0.types.definitions
            == m.types.definitions,
{
    match d {
        Definition::Namespace { name, functions } => {
            lemma_functions_bind_nothing(m.types, functions@);
            if with_namespace(m, name@) is Ok && functions_of(
                m.types,
                functions@,
            ) is Ok {
                let named = with_namespace(m, name@)->Ok_0;
                let (fs, u) = functions_of(named.types, functions@)->Ok_0;
                lemma_try_each_keeps(
                    InterfaceModel { types: u, ..named },
                    fs,
                    |m: InterfaceModel, f: FunctionModel| with_function(m, f),
                    |x: InterfaceModel| x.types.definitions == m.types.definitions,
                );
            }
        },
        Definition::Dictionary { name, fields } => {
            lemma_fields_bind_nothing(m.types, fields@);
        },
        Definition::Enum { name, attributes, variants } => {},
        Definition::Interface { name, attributes, constructors, members } => {
            lemma_variants_bind_nothing(m.types, members@);
            lemma_constructors_bind_nothing(m.types, constructors@);
            if constructors_of(m.types, constructors@) is Ok {
                lemma_methods_bind_nothing(
                    constructors_of(m.types, constructors@)->Ok_0.1,
                    name@,
                    members@,
                );
            }
        },
        Definition::CallbackInterface { name, methods } => {
            lemma_methods_bind_nothing(m.types, name@, methods@);
        },
        Definition::Typedef { name, attributes, type_ } => {},
    }
}

/// The second pass binds no name: every type that it resolves, it resolves
/// under the bindings that the first pass has made, so that the place of a
/// declaration does not decide whether its name can be used.
pub proof fn law_detail_binds_nothing(m: InterfaceModel, defns: Seq<Definition>)
    ensures
        detail(m, defns) is Ok ==> detail(m, defns)->Ok_0.types.definitions
            == m.types.definitions,
{
    let kept = |x: InterfaceModel| x.types.definitions == m.types.definitions;
    let step = |m: InterfaceModel, d: Definition| detail_step(m, d);
    assert forall|s: InterfaceModel, a: Definition|
        kept(s) && (#[trigger] step(s, a)) is Ok implies kept(step(s, a)->Ok_0) by {
        lemma_detail_step_binds_nothing(s, a);
    }
    lemma_try_each_keeps(m, defns, step, kept);
}


/// Whether an operation is a function without arguments and attributes whose
/// result is of a built-in type.
pub open spec fn plain_function(op: OperationNode) -> bool {
    &&& op.arguments@.len() == 0
    &&& op.attributes is None
    &&& op.return_type matches Some(TypeExpr::Named(t)) && builtin_type(t@) is Some
}

/// Whether a list of declarations is one namespace with one plain function.
pub open spec fn one_function(defns: Seq<Definition>) -> bool {
    &&& defns.len() == 1
    &&& defns[0] matches Definition::Namespace { name, functions } && name@.len() > 0
        && functions@.len() == 1 && plain_function(functions@[0])
}

/// The function that a plain function declares.
pub open spec fn plain_function_model(op: OperationNode) -> FunctionModel {
    FunctionModel {
        name: op.name@,
        arguments: Seq::empty(),
        return_type: builtin_type(op.return_type->0->Named_0@),
        ffi_func: FFIFunctionModel::empty(),
        attributes: Seq::empty(),
    }
}

/// The function that a plain function declares, and what it records as seen.
proof fn lemma_plain_function(u: UniverseModel, op: OperationNode)
    requires
        plain_function(op),
    ensures
        function_of(u, op) is Ok,
        function_of(u, op)->Ok_0.0 == plain_function_model(op),
        function_of(u, op)->Ok_0.1.definitions == u.definitions,
{
    let after = resolved_optional(u, op.return_type)->Ok_0.1;
    assert(arguments_of(after, op.arguments@) == Ok::<
        (Seq<crate::function::ArgumentModel>, UniverseModel),
        Failure,
    >((Seq::empty(), after)));
}

/// What the second pass makes of one namespace with one plain function, on an
/// interface without a namespace, a function or a bound name.
proof fn lemma_one_function_detail(start: InterfaceModel, defns: Seq<Definition>)
    requires
        one_function(defns),
        start.namespace.len() == 0,
        start.functions.len() == 0,
        start.types.definitions == Map::<Seq<char>, TypeModel>::empty(),
    ensures
        detail(start, defns) is Ok,
        detail(start, defns)->Ok_0.namespace == defns[0]->Namespace_name@,
        detail(start, defns)->Ok_0.functions == seq![
            plain_function_model(defns[0]->Namespace_functions@[0]),
        ],
        detail(start, defns)->Ok_0.enums == start.enums,
        detail(start, defns)->Ok_0.records == start.records,
        detail(start, defns)->Ok_0.objects == start.objects,
        detail(start, defns)->Ok_0.callback_interfaces == start.callback_interfaces,
        detail(start, defns)->Ok_0.errors == start.errors,
        detail(start, defns)->Ok_0.uniffi_version == start.uniffi_version,
        detail(start, defns)->Ok_0.types.definitions == start.types.definitions,
{
    let d = defns[0];
    let name = d->Namespace_name;
    let ops = d->Namespace_functions@;
    let op = ops[0];
    let named = InterfaceModel { namespace: name@, ..start };
    assert(with_namespace(start, name@) == Ok::<InterfaceModel, Failure>(named));
    lemma_plain_function(named.types, op);
    let convert = |u: UniverseModel, n: OperationNode| function_of(u, n);
    assert(ops.drop_last() =~= Seq::<OperationNode>::empty());
    assert(try_fold(named.types, ops.drop_last(), convert) == Ok::<
        (Seq<FunctionModel>, UniverseModel),
        Failure,
    >((Seq::empty(), named.types)));
    let f = plain_function_model(op);
    let u = function_of(named.types, op)->Ok_0.1;
    assert(ops.last() == op);
    assert(Seq::<FunctionModel>::empty().push(f) =~= seq![f]);
    assert(functions_of(named.types, ops) == Ok::<(Seq<FunctionModel>, UniverseModel), Failure>(
        (seq![f], u),
    ));
    let filled = InterfaceModel { types: u, ..named };
    let add = |m: InterfaceModel, f: FunctionModel| with_function(m, f);
    let fs = seq![f];
    assert(fs.drop_last() =~= Seq::<FunctionModel>::empty());
    assert(try_each(filled, fs.drop_last(), add) == Ok::<InterfaceModel, Failure>(filled));
    assert(filled.functions.map_values(|f: FunctionModel| f.name) =~= Seq::<Seq<char>>::empty());
    assert(!filled.function_collides(f.name));
    let done = InterfaceModel { functions: filled.functions.push(f), ..filled };
    assert(filled.functions.push(f) =~= seq![f]);
    assert(try_each(filled, fs, add) == Ok::<InterfaceModel, Failure>(done));
    assert(detail_step(start, d) == Ok::<InterfaceModel, Failure>(done));
    let step = |m: InterfaceModel, d: Definition| detail_step(m, d);
    assert(defns.drop_last() =~= Seq::<Definition>::empty());
    assert(try_each(start, defns.drop_last(), step) == Ok::<InterfaceModel, Failure>(start));
    assert(defns.last() == d);
}

/// An interface of one namespace with one function, which takes no argument
/// and returns a value of a built-in type, is built with that function and with
/// five low-level functions: the one of the function, whose symbol is the
/// namespace, the four hexadecimal digits of the checksum and the name of the
/// function, joined by underscores, and the four of the byte buffer.
pub proof fn law_one_function(version: Seq<char>, defns: Seq<Definition>)
    requires
        one_function(defns),
    ensures
        build(version, defns) is Ok,
        build(version, defns)->Ok_0.namespace == defns[0]->Namespace_name@,
        build(version, defns)->Ok_0.functions.len() == 1,
        build(version, defns)->Ok_0.ffi_functions().len() == 5,
        build(version, defns)->Ok_0.ffi_functions()[0] == build(
            version,
            defns,
        )->Ok_0.functions[0].ffi_func,
        build(version, defns)->Ok_0.functions[0].ffi_func == (FFIFunctionModel {
            name: crate::text::joined(
                crate::text::joined(
                    defns[0]->Namespace_name@,
                    crate::text::hex4(build(version, defns)->Ok_0.checksum() as int % 0x10000),
                ),
                defns[0]->Namespace_functions@[0].name@,
            ),
            arguments: Seq::empty(),
            return_type: Some(
                crate::ffi::lower(
                    builtin_type(
                        defns[0]->Namespace_functions@[0].return_type->0->Named_0@,
                    )->0,
                ),
            ),
        }),
{
    let discovering = |u: UniverseModel, d: Definition| discover_step(u, d);
    assert(defns.drop_last() =~= Seq::<Definition>::empty());
    assert(try_each(no_types(), defns.drop_last(), discovering) == Ok::<UniverseModel, Failure>(
        no_types(),
    ));
    assert(discover(no_types(), defns) == Ok::<UniverseModel, Failure>(no_types()));
    let start = blank(version, no_types());
    lemma_one_function_detail(start, defns);
    let m = detail(start, defns)->Ok_0;
    lemma_one_function_shape(m);
    law_checksum_before_derivation(m);
}

/// The low-level functions of an interface that holds one function and no
/// other declaration, once they are derived.
proof fn lemma_one_function_shape(m: InterfaceModel)
    requires
        m.namespace.len() > 0,
        m.functions.len() == 1,
        m.functions[0].arguments.len() == 0,
        m.enums.len() == 0,
        m.objects.len() == 0,
        m.callback_interfaces.len() == 0,
    ensures
        m.inconsistency() is None,
        m.derived().functions.len() == 1,
        m.derived().functions[0].ffi_func == m.functions[0].ffi(m.ffi_namespace()),
        m.derived().functions[0].ffi_func.arguments == Seq::<
            crate::ffi::FFIArgumentModel,
        >::empty(),
        m.derived().ffi_functions().len() == 5,
        m.derived().ffi_functions()[0] == m.derived().functions[0].ffi_func,
{
    crate::fold::lemma_first_index_none(
        m.enums,
        |e: crate::enum_::EnumModel|
            crate::interface::shadowing_variant(m.types.definitions, e) is Some,
    );
    let built = m.derived();
    assert(built.objects =~= Seq::<ObjectModel>::empty());
    assert(built.callback_interfaces =~= Seq::<CallbackInterfaceModel>::empty());
    assert(crate::function::lowered(m.functions[0].arguments) =~= Seq::<
        crate::ffi::FFIArgumentModel,
    >::empty());
    let user = built.user_ffi_functions();
    assert(crate::fold::flat_map(built.objects, |o: ObjectModel| o.ffi_functions()) =~= Seq::<
        FFIFunctionModel,
    >::empty());
    assert(user =~= seq![built.functions[0].ffi_func]);
    assert(built.ffi_functions() =~= seq![built.functions[0].ffi_func]
        + built.buffer_functions());
}

} // verus!
