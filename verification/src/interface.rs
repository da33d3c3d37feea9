//! The component interface: every declaration of a component, the registry of
//! its types, and the low-level functions derived from them.
//!
//! An interface is built in a fixed order: names are discovered, declarations are
//! filled in, the whole is checked for consistency, and only then are the
//! low-level functions derived. Their symbols hold a checksum of the high-level
//! content, so the content has to be settled first; and the checksum leaves the
//! derived functions out, so nothing turns in a circle.

pub use crate::callbacks::CallbackInterface;
pub use crate::enum_::{Enum, Variant};
pub use crate::error::Error;
pub use crate::failure::{Inconsistency, InterfaceError};
pub use crate::ffi::{FFIArgument, FFIFunction, FFIType};
pub use crate::function::{Argument, Function};
pub use crate::literal::{Literal, Radix};
pub use crate::object::{Constructor, Method, Object};
pub use crate::record::{Field, Record};
pub use crate::types::Type;
use std::collections::hash_map::DefaultHasher;
use std::hash::Hasher;
use vstd::prelude::*;
use vstd::std_specs::hash::DefaultHasherAdditionalSpecFns;
use crate::callbacks::CallbackInterfaceModel;
use crate::checksum::{list, text, Checksummed, Writes, hash_all, write_text};
use crate::declaration::{find_declaration, names_of};
use crate::enum_::{EnumModel, VariantModel};
use crate::error::ErrorModel;
use crate::failure::{Failure, InconsistencyModel};
use crate::ffi::{ffi_argument_models, FFIArgumentModel, FFIFunctionModel};
use crate::fold::{
    first_index, flat_map, lemma_first_index_at, lemma_first_index_none, lemma_position,
    lemma_flat_map_ends, lemma_flat_map_step, lemma_flat_map_views, position, views,
};
use crate::function::FunctionModel;
use crate::object::ObjectModel;
use crate::record::RecordModel;
use crate::text::{hex4, join, joined, to_hex4};
use crate::types::{models_of, resolve_builtin_type, TypeModel};
use crate::universe::{binding, register, resolve, TypeExpr, TypeUniverse, UniverseModel};
use vstd::string::StrSliceExecFns;

verus! {

/// What a [`ComponentInterface`] stands for.
pub struct InterfaceModel {
    /// The version of the generator that built the interface.
    pub uniffi_version: Seq<char>,
    pub types: UniverseModel,
    pub namespace: Seq<char>,
    pub enums: Seq<EnumModel>,
    pub records: Seq<RecordModel>,
    pub functions: Seq<FunctionModel>,
    pub objects: Seq<ObjectModel>,
    pub callback_interfaces: Seq<CallbackInterfaceModel>,
    pub errors: Seq<ErrorModel>,
}

/// A low-level function of the byte buffer.
pub open spec fn buffer_function(
    prefix: Seq<char>,
    name: Seq<char>,
    arguments: Seq<FFIArgumentModel>,
    return_type: Option<FFIType>,
) -> FFIFunctionModel {
    FFIFunctionModel { name: joined(joined("ffi"@, prefix), name), arguments, return_type }
}

impl InterfaceModel {
    /// The first enum named `name`.
    pub open spec fn enum_named(self, name: Seq<char>) -> Option<EnumModel> {
        match position(self.enums.map_values(|e: EnumModel| e.name), name) {
            Some(i) => Some(self.enums[i]),
            None => None,
        }
    }

    /// The first record named `name`.
    pub open spec fn record_named(self, name: Seq<char>) -> Option<RecordModel> {
        match position(self.records.map_values(|r: RecordModel| r.name), name) {
            Some(i) => Some(self.records[i]),
            None => None,
        }
    }

    /// The first function named `name`.
    pub open spec fn function_named(self, name: Seq<char>) -> Option<FunctionModel> {
        match position(self.functions.map_values(|f: FunctionModel| f.name), name) {
            Some(i) => Some(self.functions[i]),
            None => None,
        }
    }

    /// The first object named `name`.
    pub open spec fn object_named(self, name: Seq<char>) -> Option<ObjectModel> {
        match position(self.objects.map_values(|o: ObjectModel| o.name), name) {
            Some(i) => Some(self.objects[i]),
            None => None,
        }
    }

    /// The first callback interface named `name`.
    pub open spec fn callback_interface_named(self, name: Seq<char>) -> Option<
        CallbackInterfaceModel,
    > {
        match position(
            self.callback_interfaces.map_values(|c: CallbackInterfaceModel| c.name),
            name,
        ) {
            Some(i) => Some(self.callback_interfaces[i]),
            None => None,
        }
    }

    /// The first error family named `name`.
    pub open spec fn error_named(self, name: Seq<char>) -> Option<ErrorModel> {
        match position(self.errors.map_values(|e: ErrorModel| e.name()), name) {
            Some(i) => Some(self.errors[i]),
            None => None,
        }
    }

    /// No two functions bear the same name, and no function bears the name of a
    /// declared type.
    pub open spec fn names_apart(self) -> bool {
        &&& forall|i: int, j: int|
            0 <= i < j < self.functions.len() ==> self.functions[i].name
                != self.functions[j].name
        &&& forall|i: int|
            0 <= i < self.functions.len() ==> !self.types.definitions.contains_key(
                #[trigger] self.functions[i].name,
            )
    }

    /// The byte strings that the interface hands to a hasher: the version of the
    /// generator, the namespace, and every declaration. The registry of types
    /// is no part of them, and neither is any low-level function.
    pub open spec fn writes(self) -> Writes {
        text(self.uniffi_version) + text(self.namespace) + list(
            self.enums,
            |x: EnumModel| x.writes(),
        ) + list(self.records, |x: RecordModel| x.writes()) + list(
            self.functions,
            |x: FunctionModel| x.writes(),
        ) + list(self.objects, |x: ObjectModel| x.writes()) + list(
            self.callback_interfaces,
            |x: CallbackInterfaceModel| x.writes(),
        ) + list(self.errors, |x: ErrorModel| x.writes())
    }

    /// The checksum of the interface: the hash of what it hands to a hasher.
    pub open spec fn checksum(self) -> u64 {
        DefaultHasher::spec_finish(self.writes())
    }

    /// The prefix of every low-level symbol: the namespace, and the lowest
    /// sixteen bits of the checksum as four hexadecimal digits.
    pub open spec fn ffi_namespace(self) -> Seq<char> {
        joined(self.namespace, hex4(self.checksum() as int % 0x10000))
    }

    /// The low-level function that allocates a byte buffer.
    pub open spec fn rustbuffer_alloc(self) -> FFIFunctionModel {
        buffer_function(
            self.ffi_namespace(),
            "rustbuffer_alloc"@,
            seq![FFIArgumentModel { name: "size"@, type_: FFIType::Int32 }],
            Some(FFIType::RustBuffer),
        )
    }

    /// The low-level function that copies bytes of the foreign side into a byte buffer.
    pub open spec fn rustbuffer_from_bytes(self) -> FFIFunctionModel {
        buffer_function(
            self.ffi_namespace(),
            "rustbuffer_from_bytes"@,
            seq![FFIArgumentModel { name: "bytes"@, type_: FFIType::ForeignBytes }],
            Some(FFIType::RustBuffer),
        )
    }

    /// The low-level function that frees a byte buffer.
    pub open spec fn rustbuffer_free(self) -> FFIFunctionModel {
        buffer_function(
            self.ffi_namespace(),
            "rustbuffer_free"@,
            seq![FFIArgumentModel { name: "buf"@, type_: FFIType::RustBuffer }],
            None,
        )
    }

    /// The low-level function that makes room in a byte buffer.
    pub open spec fn rustbuffer_reserve(self) -> FFIFunctionModel {
        buffer_function(
            self.ffi_namespace(),
            "rustbuffer_reserve"@,
            seq![
                FFIArgumentModel { name: "buf"@, type_: FFIType::RustBuffer },
                FFIArgumentModel { name: "additional"@, type_: FFIType::Int32 },
            ],
            Some(FFIType::RustBuffer),
        )
    }

    /// The four low-level functions of the byte buffer, which every interface has.
    pub open spec fn buffer_functions(self) -> Seq<FFIFunctionModel> {
        seq![
            self.rustbuffer_alloc(),
            self.rustbuffer_from_bytes(),
            self.rustbuffer_free(),
            self.rustbuffer_reserve(),
        ]
    }
}

/// The finished description of a component: its declarations, and the low-level
/// functions through which they are reached.
#[derive(Debug)]
pub struct ComponentInterface {
    pub(crate) uniffi_version: String,
    pub(crate) types: TypeUniverse,
    pub(crate) namespace: String,
    pub(crate) enums: Vec<Enum>,
    pub(crate) records: Vec<Record>,
    pub(crate) functions: Vec<Function>,
    pub(crate) objects: Vec<Object>,
    pub(crate) callback_interfaces: Vec<CallbackInterface>,
    pub(crate) errors: Vec<Error>,
}

impl View for ComponentInterface {
    type V = InterfaceModel;

    open(crate) spec fn view(&self) -> InterfaceModel {
        InterfaceModel {
            uniffi_version: self.uniffi_version@,
            types: self.types@,
            namespace: self.namespace@,
            enums: views(self.enums@),
            records: views(self.records@),
            functions: views(self.functions@),
            objects: views(self.objects@),
            callback_interfaces: views(self.callback_interfaces@),
            errors: views(self.errors@),
        }
    }
}

impl Default for ComponentInterface {
    /// An interface without a namespace, a version or a declaration.
    fn default() -> (r: ComponentInterface)
        ensures
            r.wf(),
            r@ == (InterfaceModel {
                uniffi_version: Seq::empty(),
                types: UniverseModel { definitions: Map::empty(), known: Seq::empty() },
                namespace: Seq::empty(),
                enums: Seq::empty(),
                records: Seq::empty(),
                functions: Seq::empty(),
                objects: Seq::empty(),
                callback_interfaces: Seq::empty(),
                errors: Seq::empty(),
            }),
    {
        let r = ComponentInterface {
            uniffi_version: String::new(),
            types: TypeUniverse::new(),
            namespace: String::new(),
            enums: Vec::new(),
            records: Vec::new(),
            functions: Vec::new(),
            objects: Vec::new(),
            callback_interfaces: Vec::new(),
            errors: Vec::new(),
        };
        proof {
            assert(r@.enums =~= Seq::empty());
            assert(r@.records =~= Seq::empty());
            assert(r@.functions =~= Seq::empty());
            assert(r@.objects =~= Seq::empty());
            assert(r@.callback_interfaces =~= Seq::empty());
            assert(r@.errors =~= Seq::empty());
        }
        r
    }
}

impl ComponentInterface {
    /// The registry is well formed, no two functions bear the same name, and no
    /// function bears the name of a declared type.
    pub open(crate) spec fn wf(&self) -> bool {
        &&& self.types.wf()
        &&& self@.names_apart()
    }

    /// What well-formedness means for the view.
    pub proof fn lemma_wf(&self)
        requires
            self.wf(),
        ensures
            self@.names_apart(),
            self@.types.known.no_duplicates(),
    {
        self.types.lemma_wf();
    }

    /// The version of this generator, which goes into every checksum.
    pub fn generator_version() -> (r: &'static str)
        ensures
            r@ == "0.1.0"@,
    {
        "0.1.0"
    }

    /// An interface of this generator's version, without a namespace or a declaration.
    pub fn new() -> (r: ComponentInterface)
        ensures
            r.wf(),
            r@ == (InterfaceModel {
                uniffi_version: "0.1.0"@,
                types: UniverseModel { definitions: Map::empty(), known: Seq::empty() },
                namespace: Seq::empty(),
                enums: Seq::empty(),
                records: Seq::empty(),
                functions: Seq::empty(),
                objects: Seq::empty(),
                callback_interfaces: Seq::empty(),
                errors: Seq::empty(),
            }),
    {
        let mut r = ComponentInterface::default();
        r.uniffi_version = ComponentInterface::generator_version().to_owned();
        r
    }

    /// The namespace under which the component presents itself.
    pub fn namespace(&self) -> (r: &str)
        ensures
            r@ == self@.namespace,
    {
        self.namespace.as_str()
    }

    /// Every enum, in the order in which they were added.
    pub fn enum_definitions(&self) -> (r: &[Enum])
        ensures
            views(r@) == self@.enums,
    {
        self.enums.as_slice()
    }

    /// The first enum named `name`.
    pub fn get_enum_definition(&self, name: &str) -> (r: Option<&Enum>)
        ensures
            match self@.enum_named(name@) {
                Some(e) => r is Some && r->0@ == e,
                None => r is None,
            },
    {
        assert(names_of(self.enums@) =~= self@.enums.map_values(|e: EnumModel| e.name));
        match find_declaration(&self.enums, name) {
            Some(i) => Some(&self.enums[i]),
            None => None,
        }
    }

    /// Every record, in the order in which they were added.
    pub fn record_definitions(&self) -> (r: &[Record])
        ensures
            views(r@) == self@.records,
    {
        self.records.as_slice()
    }

    /// The first record named `name`.
    pub fn get_record_definition(&self, name: &str) -> (r: Option<&Record>)
        ensures
            match self@.record_named(name@) {
                Some(e) => r is Some && r->0@ == e,
                None => r is None,
            },
    {
        assert(names_of(self.records@) =~= self@.records.map_values(|r: RecordModel| r.name));
        match find_declaration(&self.records, name) {
            Some(i) => Some(&self.records[i]),
            None => None,
        }
    }

    /// Every function, in the order in which they were added.
    pub fn function_definitions(&self) -> (r: &[Function])
        ensures
            views(r@) == self@.functions,
    {
        self.functions.as_slice()
    }

    /// The first function named `name`.
    pub fn get_function_definition(&self, name: &str) -> (r: Option<&Function>)
        ensures
            match self@.function_named(name@) {
                Some(e) => r is Some && r->0@ == e,
                None => r is None,
            },
    {
        assert(names_of(self.functions@) =~= self@.functions.map_values(
            |f: FunctionModel| f.name,
        ));
        match find_declaration(&self.functions, name) {
            Some(i) => Some(&self.functions[i]),
            None => None,
        }
    }

    /// Every object, in the order in which they were added.
    pub fn object_definitions(&self) -> (r: &[Object])
        ensures
            views(r@) == self@.objects,
    {
        self.objects.as_slice()
    }

    /// The first object named `name`.
    pub fn get_object_definition(&self, name: &str) -> (r: Option<&Object>)
        ensures
            match self@.object_named(name@) {
                Some(e) => r is Some && r->0@ == e,
                None => r is None,
            },
    {
        assert(names_of(self.objects@) =~= self@.objects.map_values(|o: ObjectModel| o.name));
        match find_declaration(&self.objects, name) {
            Some(i) => Some(&self.objects[i]),
            None => None,
        }
    }

    /// Every callback interface, in the order in which they were added.
    pub fn callback_interface_definitions(&self) -> (r: &[CallbackInterface])
        ensures
            views(r@) == self@.callback_interfaces,
    {
        self.callback_interfaces.as_slice()
    }

    /// The first callback interface named `name`.
    pub fn get_callback_interface_definition(&self, name: &str) -> (r: Option<
        &CallbackInterface,
    >)
        ensures
            match self@.callback_interface_named(name@) {
                Some(e) => r is Some && r->0@ == e,
                None => r is None,
            },
    {
        assert(names_of(self.callback_interfaces@) =~= self@.callback_interfaces.map_values(
            |c: CallbackInterfaceModel| c.name,
        ));
        match find_declaration(&self.callback_interfaces, name) {
            Some(i) => Some(&self.callback_interfaces[i]),
            None => None,
        }
    }

    /// Every error family, in the order in which they were added.
    pub fn error_definitions(&self) -> (r: &[Error])
        ensures
            views(r@) == self@.errors,
    {
        self.errors.as_slice()
    }

    /// The first error family named `name`.
    pub fn get_error_definition(&self, name: &str) -> (r: Option<&Error>)
        ensures
            match self@.error_named(name@) {
                Some(e) => r is Some && r->0@ == e,
                None => r is None,
            },
    {
        assert(names_of(self.errors@) =~= self@.errors.map_values(|e: ErrorModel| e.name()));
        match find_declaration(&self.errors, name) {
            Some(i) => Some(&self.errors[i]),
            None => None,
        }
    }

    /// Every type seen so far, each once, in the order in which they were first seen.
    pub fn iter_types(&self) -> (r: Vec<&Type>)
        ensures
            models_of(r@) == self@.types.known,
    {
        self.types.iter_known_types()
    }

    /// The type that a declared name is bound to, if the name was declared.
    pub fn get_type(&self, name: &str) -> (r: Option<Type>)
        requires
            self.wf(),
        ensures
            r is Some <==> self@.types.definitions.contains_key(name@),
            r matches Some(t) ==> t@ == self@.types.definitions[name@],
    {
        self.types.get_type_definition(name)
    }
}


/// The name and the crate of an external type.
pub open spec fn external_type(t: TypeModel) -> Option<(Seq<char>, Seq<char>)> {
    match t {
        TypeModel::External { name, crate_name } => Some((name, crate_name)),
        _ => None,
    }
}

/// The name of a custom type, and the type that it is built on.
pub open spec fn custom_type(t: TypeModel) -> Option<(Seq<char>, TypeModel)> {
    match t {
        TypeModel::Custom { name, builtin } => Some((name, *builtin)),
        _ => None,
    }
}

impl InterfaceModel {
    /// The external types among the types seen, each with its crate.
    pub open spec fn external_types(self) -> Seq<(Seq<char>, Seq<char>)> {
        self.types.known.filter_map(|t: TypeModel| external_type(t))
    }

    /// The custom types among the types seen, each with the type that it is built on.
    pub open spec fn custom_types(self) -> Seq<(Seq<char>, TypeModel)> {
        self.types.known.filter_map(|t: TypeModel| custom_type(t))
    }
}

impl ComponentInterface {
    /// The external types among the types seen: the name and the crate of each.
    pub fn iter_external_types(&self) -> (r: Vec<(&String, &String)>)
        ensures
            r@.map_values(|p: (&String, &String)| (p.0@, p.1@)) == self@.external_types(),
    {
        let known = self.types.iter_known_types();
        let ghost all = self@.types.known;
        let ghost pick = |t: TypeModel| external_type(t);
        let mut out: Vec<(&String, &String)> = Vec::new();
        let mut i: usize = 0;
        proof {
            assert(all.take(0) =~= Seq::<TypeModel>::empty());
            assert(out@.map_values(|p: (&String, &String)| (p.0@, p.1@)) =~= all.take(
                0,
            ).filter_map(pick));
        }
        while i < known.len()
            invariant
                i <= known@.len(),
                models_of(known@) == all,
                pick == (|t: TypeModel| external_type(t)),
                out@.map_values(|p: (&String, &String)| (p.0@, p.1@)) == all.take(
                    i as int,
                ).filter_map(pick),
            decreases known@.len() - i,
        {
            let ghost before = out@.map_values(|p: (&String, &String)| (p.0@, p.1@));
            proof {
                all.lemma_filter_map_take_succ(pick, i as int);
                assert(all[i as int] == known@[i as int]@);
            }
            match known[i] {
                Type::External { name, crate_name } => {
                    out.push((name, crate_name));
                    assert(out@.map_values(|p: (&String, &String)| (p.0@, p.1@)) =~= before
                        + seq![(name@, crate_name@)]);
                },
                _ => {
                    assert(before + Seq::<(Seq<char>, Seq<char>)>::empty() =~= before);
                },
            }
            i += 1;
        }
        assert(all.take(i as int) =~= all);
        out
    }

    /// The custom types among the types seen: the name of each, and the type that
    /// it is built on.
    pub fn iter_custom_types(&self) -> (r: Vec<(&String, &Type)>)
        ensures
            r@.map_values(|p: (&String, &Type)| (p.0@, p.1@)) == self@.custom_types(),
    {
        let known = self.types.iter_known_types();
        let ghost all = self@.types.known;
        let ghost pick = |t: TypeModel| custom_type(t);
        let mut out: Vec<(&String, &Type)> = Vec::new();
        let mut i: usize = 0;
        proof {
            assert(all.take(0) =~= Seq::<TypeModel>::empty());
            assert(out@.map_values(|p: (&String, &Type)| (p.0@, p.1@)) =~= all.take(
                0,
            ).filter_map(pick));
        }
        while i < known.len()
            invariant
                i <= known@.len(),
                models_of(known@) == all,
                pick == (|t: TypeModel| custom_type(t)),
                out@.map_values(|p: (&String, &Type)| (p.0@, p.1@)) == all.take(
                    i as int,
                ).filter_map(pick),
            decreases known@.len() - i,
        {
            let ghost before = out@.map_values(|p: (&String, &Type)| (p.0@, p.1@));
            proof {
                all.lemma_filter_map_take_succ(pick, i as int);
                assert(all[i as int] == known@[i as int]@);
            }
            match known[i] {
                Type::Custom { name, builtin } => {
                    let inner: &Type = builtin;
                    out.push((name, inner));
                    assert(out@.map_values(|p: (&String, &Type)| (p.0@, p.1@)) =~= before
                        + seq![(name@, builtin@)]);
                },
                _ => {
                    assert(before + Seq::<(Seq<char>, TypeModel)>::empty() =~= before);
                },
            }
            i += 1;
        }
        assert(all.take(i as int) =~= all);
        out
    }

    /// Whether an optional type is among the types seen.
    pub fn contains_optional_types(&self) -> (r: bool)
        ensures
            r == exists|i: int|
                0 <= i < self@.types.known.len() && self@.types.known[i] is Optional,
    {
        let known = self.types.iter_known_types();
        let mut i: usize = 0;
        while i < known.len()
            invariant
                i <= known@.len(),
                models_of(known@) == self@.types.known,
                forall|j: int| 0 <= j < i ==> !(self@.types.known[j] is Optional),
            decreases known@.len() - i,
        {
            assert(self@.types.known[i as int] == known@[i as int]@);
            if let Type::Optional(_) = known[i] {
                return true;
            }
            i += 1;
        }
        false
    }

    /// Whether a sequence type is among the types seen.
    pub fn contains_sequence_types(&self) -> (r: bool)
        ensures
            r == exists|i: int|
                0 <= i < self@.types.known.len() && self@.types.known[i] is Sequence,
    {
        let known = self.types.iter_known_types();
        let mut i: usize = 0;
        while i < known.len()
            invariant
                i <= known@.len(),
                models_of(known@) == self@.types.known,
                forall|j: int| 0 <= j < i ==> !(self@.types.known[j] is Sequence),
            decreases known@.len() - i,
        {
            assert(self@.types.known[i as int] == known@[i as int]@);
            if let Type::Sequence(_) = known[i] {
                return true;
            }
            i += 1;
        }
        false
    }

    /// Whether a map type is among the types seen.
    pub fn contains_map_types(&self) -> (r: bool)
        ensures
            r == exists|i: int|
                0 <= i < self@.types.known.len() && self@.types.known[i] is Mapping,
    {
        let known = self.types.iter_known_types();
        let mut i: usize = 0;
        while i < known.len()
            invariant
                i <= known@.len(),
                models_of(known@) == self@.types.known,
                forall|j: int| 0 <= j < i ==> !(self@.types.known[j] is Mapping),
            decreases known@.len() - i,
        {
            assert(self@.types.known[i as int] == known@[i as int]@);
            if let Type::Mapping(_, _) = known[i] {
                return true;
            }
            i += 1;
        }
        false
    }
}

impl Checksummed for ComponentInterface {
    open spec fn writes(&self) -> Writes {
        self@.writes()
    }

    fn hash(&self, state: &mut DefaultHasher) {
        let ghost start = state@;
        proof {
            lemma_flat_map_views(
                self.enums@,
                |x: Enum| x@,
                |x: EnumModel| x.writes(),
                |x: Enum| x.writes(),
            );
            lemma_flat_map_views(
                self.records@,
                |x: Record| x@,
                |x: RecordModel| x.writes(),
                |x: Record| x.writes(),
            );
            lemma_flat_map_views(
                self.functions@,
                |x: Function| x@,
                |x: FunctionModel| x.writes(),
                |x: Function| x.writes(),
            );
            lemma_flat_map_views(
                self.objects@,
                |x: Object| x@,
                |x: ObjectModel| x.writes(),
                |x: Object| x.writes(),
            );
            lemma_flat_map_views(
                self.callback_interfaces@,
                |x: CallbackInterface| x@,
                |x: CallbackInterfaceModel| x.writes(),
                |x: CallbackInterface| x.writes(),
            );
            lemma_flat_map_views(
                self.errors@,
                |x: Error| x@,
                |x: ErrorModel| x.writes(),
                |x: Error| x.writes(),
            );
        }
        write_text(state, self.uniffi_version.as_str());
        write_text(state, self.namespace.as_str());
        hash_all(&self.enums, state);
        hash_all(&self.records, state);
        hash_all(&self.functions, state);
        hash_all(&self.objects, state);
        hash_all(&self.callback_interfaces, state);
        hash_all(&self.errors, state);
        assert(state@ =~= start + self@.writes());
    }
}

impl ComponentInterface {
    /// The checksum of the interface: a hash over its high-level content. It
    /// guards against the use of bindings made from one version of an interface
    /// with native code made from another; it is no proof against tampering.
    pub fn checksum(&self) -> (r: u64)
        ensures
            r == self@.checksum(),
    {
        let mut hasher = DefaultHasher::new();
        self.hash(&mut hasher);
        assert(hasher@ =~= self@.writes());
        hasher.finish()
    }

    /// The prefix of every low-level symbol: the namespace, and the lowest
    /// sixteen bits of the checksum as four hexadecimal digits.
    pub fn ffi_namespace(&self) -> (r: String)
        ensures
            r@ == self@.ffi_namespace(),
    {
        let sum = self.checksum();
        let low = sum & 0xFFFF;
        assert(low == sum % 0x10000) by (bit_vector)
            requires
                low == sum & 0xFFFF,
        ;
        let digits = to_hex4(low as u16);
        join(self.namespace.as_str(), digits.as_str())
    }

    fn buffer_function(&self, name: &str, arguments: Vec<FFIArgument>, return_type: Option<FFIType>)
        -> (r: FFIFunction)
        ensures
            r@ == buffer_function(
                self@.ffi_namespace(),
                name@,
                ffi_argument_models(arguments@),
                return_type,
            ),
    {
        let namespace = self.ffi_namespace();
        let prefix = join("ffi", namespace.as_str());
        FFIFunction { name: join(prefix.as_str(), name), arguments, return_type }
    }

    /// The low-level function that allocates a byte buffer.
    pub fn ffi_rustbuffer_alloc(&self) -> (r: FFIFunction)
        ensures
            r@ == self@.rustbuffer_alloc(),
    {
        let mut args: Vec<FFIArgument> = Vec::new();
        args.push(FFIArgument::new("size", FFIType::Int32));
        assert(ffi_argument_models(args@) =~= seq![
            FFIArgumentModel { name: "size"@, type_: FFIType::Int32 },
        ]);
        self.buffer_function("rustbuffer_alloc", args, Some(FFIType::RustBuffer))
    }

    /// The low-level function that copies bytes of the foreign side into a byte buffer.
    pub fn ffi_rustbuffer_from_bytes(&self) -> (r: FFIFunction)
        ensures
            r@ == self@.rustbuffer_from_bytes(),
    {
        let mut args: Vec<FFIArgument> = Vec::new();
        args.push(FFIArgument::new("bytes", FFIType::ForeignBytes));
        assert(ffi_argument_models(args@) =~= seq![
            FFIArgumentModel { name: "bytes"@, type_: FFIType::ForeignBytes },
        ]);
        self.buffer_function("rustbuffer_from_bytes", args, Some(FFIType::RustBuffer))
    }

    /// The low-level function that frees a byte buffer.
    pub fn ffi_rustbuffer_free(&self) -> (r: FFIFunction)
        ensures
            r@ == self@.rustbuffer_free(),
    {
        let mut args: Vec<FFIArgument> = Vec::new();
        args.push(FFIArgument::new("buf", FFIType::RustBuffer));
        assert(ffi_argument_models(args@) =~= seq![
            FFIArgumentModel { name: "buf"@, type_: FFIType::RustBuffer },
        ]);
        self.buffer_function("rustbuffer_free", args, None)
    }

    /// The low-level function that makes room in a byte buffer.
    pub fn ffi_rustbuffer_reserve(&self) -> (r: FFIFunction)
        ensures
            r@ == self@.rustbuffer_reserve(),
    {
        let mut args: Vec<FFIArgument> = Vec::new();
        args.push(FFIArgument::new("buf", FFIType::RustBuffer));
        args.push(FFIArgument::new("additional", FFIType::Int32));
        assert(ffi_argument_models(args@) =~= seq![
            FFIArgumentModel { name: "buf"@, type_: FFIType::RustBuffer },
            FFIArgumentModel { name: "additional"@, type_: FFIType::Int32 },
        ]);
        self.buffer_function("rustbuffer_reserve", args, Some(FFIType::RustBuffer))
    }

    /// The four low-level functions of the byte buffer, which every interface has.
    pub fn iter_rust_buffer_ffi_function_definitions(&self) -> (r: Vec<FFIFunction>)
        ensures
            views(r@) == self@.buffer_functions(),
    {
        let mut out: Vec<FFIFunction> = Vec::new();
        out.push(self.ffi_rustbuffer_alloc());
        out.push(self.ffi_rustbuffer_from_bytes());
        out.push(self.ffi_rustbuffer_free());
        out.push(self.ffi_rustbuffer_reserve());
        assert(views(out@) =~= self@.buffer_functions());
        out
    }
}


/// A namespace: the name under which a component presents itself.
#[derive(Debug, PartialEq, Eq)]
pub struct Namespace {
    pub(crate) name: String,
}

impl Namespace {
    /// The namespace named `name`.
    pub fn new(name: String) -> (r: Namespace)
        ensures
            r.name_of() == name@,
    {
        Namespace { name }
    }

    /// The name of the namespace.
    pub closed spec fn name_of(&self) -> Seq<char> {
        self.name@
    }

    pub fn name(&self) -> (r: &str)
        ensures
            r@ == self.name_of(),
    {
        self.name.as_str()
    }
}

/// The place of the first variant of an enum that bears the name of a declared type.
pub open spec fn shadowing_variant(definitions: Map<Seq<char>, TypeModel>, e: EnumModel) -> Option<
    int,
> {
    first_index(e.variants, |v: VariantModel| definitions.contains_key(v.name))
}

impl InterfaceModel {
    /// The low-level functions of the declarations: those of the objects, then
    /// those of the callback interfaces, then those of the functions.
    pub open spec fn user_ffi_functions(self) -> Seq<FFIFunctionModel> {
        flat_map(self.objects, |o: ObjectModel| o.ffi_functions())
            + self.callback_interfaces.map_values(
            |c: CallbackInterfaceModel| c.ffi_init_callback,
        ) + self.functions.map_values(|f: FunctionModel| f.ffi_func)
    }

    /// Every low-level function of the interface: those of the declarations,
    /// then the four of the byte buffer.
    pub open spec fn ffi_functions(self) -> Seq<FFIFunctionModel> {
        self.user_ffi_functions() + self.buffer_functions()
    }

    /// The interface with every low-level function derived, under the prefix
    /// that its namespace and its checksum give.
    pub open spec fn derived(self) -> InterfaceModel {
        let prefix = self.ffi_namespace();
        InterfaceModel {
            functions: self.functions.map_values(|f: FunctionModel| f.derived(prefix)),
            objects: self.objects.map_values(|o: ObjectModel| o.derived(prefix)),
            callback_interfaces: self.callback_interfaces.map_values(
                |c: CallbackInterfaceModel| c.derived(prefix),
            ),
            ..self
        }
    }

    /// The name of the first enum variant, in the order of the enums and of
    /// their variants, that bears the name of a declared type.
    pub open spec fn shadowed(self) -> Option<Seq<char>> {
        match first_index(
            self.enums,
            |e: EnumModel| shadowing_variant(self.types.definitions, e) is Some,
        ) {
            Some(i) => Some(
                self.enums[i].variants[shadowing_variant(
                    self.types.definitions,
                    self.enums[i],
                )->0].name,
            ),
            None => None,
        }
    }

    /// The first global invariant that the interface breaks: it has no
    /// namespace, or else a variant of an enum shadows a declared type.
    pub open spec fn inconsistency(self) -> Option<InconsistencyModel> {
        if self.namespace.len() == 0 {
            Some(InconsistencyModel::MissingNamespace)
        } else {
            match self.shadowed() {
                Some(n) => Some(InconsistencyModel::ShadowedTypeName(n)),
                None => None,
            }
        }
    }

    /// The interface after `name` was bound to `t`: the type is recorded as
    /// seen, and the name is bound to it unless it is bound to it already. It is
    /// a failure to bind a name that is bound to another type, built-in names
    /// included, or that a function bears.
    pub open spec fn with_type(self, name: Seq<char>, t: TypeModel) -> Result<
        InterfaceModel,
        Failure,
    > {
        match binding(self.types.definitions, name) {
            Some(bound) => if bound == t {
                Ok(
                    InterfaceModel {
                        types: UniverseModel { known: register(self.types.known, t), ..self.types },
                        ..self
                    },
                )
            } else {
                Err(Failure::DuplicateDefinition(name))
            },
            None => if self.function_named(name) is Some {
                Err(Failure::DuplicateDefinition(name))
            } else {
                Ok(
                    InterfaceModel {
                        types: UniverseModel {
                            definitions: self.types.definitions.insert(name, t),
                            known: register(self.types.known, t),
                        },
                        ..self
                    },
                )
            },
        }
    }

    /// Whether a function named `name` would collide with a function or a type.
    pub open spec fn function_collides(self, name: Seq<char>) -> bool {
        self.function_named(name) is Some || self.types.definitions.contains_key(name)
    }
}

impl ComponentInterface {
    /// The low-level functions of the declarations: those of the objects, then
    /// those of the callback interfaces, then those of the functions.
    pub fn iter_user_ffi_function_definitions(&self) -> (r: Vec<&FFIFunction>)
        ensures
            r@.map_values(|f: &FFIFunction| f@) == self@.user_ffi_functions(),
    {
        let ghost each = |o: ObjectModel| o.ffi_functions();
        let mut out: Vec<&FFIFunction> = Vec::new();
        let mut i: usize = 0;
        proof {
            lemma_flat_map_ends(self@.objects, each);
            assert(out@.map_values(|f: &FFIFunction| f@) =~= Seq::empty());
        }
        while i < self.objects.len()
            invariant
                i <= self.objects@.len(),
                each == (|o: ObjectModel| o.ffi_functions()),
                out@.map_values(|f: &FFIFunction| f@) == flat_map(
                    self@.objects.take(i as int),
                    each,
                ),
            decreases self.objects@.len() - i,
        {
            let ghost before = out@.map_values(|f: &FFIFunction| f@);
            let mut more = self.objects[i].iter_ffi_function_definitions();
            let ghost added = more@.map_values(|f: &FFIFunction| f@);
            out.append(&mut more);
            proof {
                lemma_flat_map_step(self@.objects, each, i as int);
                assert(out@.map_values(|f: &FFIFunction| f@) =~= before + added);
            }
            i += 1;
        }
        proof {
            lemma_flat_map_ends(self@.objects, each);
        }
        let ghost first = out@.map_values(|f: &FFIFunction| f@);
        let mut k: usize = 0;
        while k < self.callback_interfaces.len()
            invariant
                k <= self.callback_interfaces@.len(),
                out@.map_values(|f: &FFIFunction| f@) == first
                    + self@.callback_interfaces.take(k as int).map_values(
                    |c: CallbackInterfaceModel| c.ffi_init_callback,
                ),
            decreases self.callback_interfaces@.len() - k,
        {
            let ghost before = out@.map_values(|f: &FFIFunction| f@);
            out.push(self.callback_interfaces[k].ffi_init_callback());
            proof {
                assert(out@.map_values(|f: &FFIFunction| f@) =~= before.push(
                    self@.callback_interfaces[k as int].ffi_init_callback,
                ));
                assert(self@.callback_interfaces.take(k as int + 1).map_values(
                    |c: CallbackInterfaceModel| c.ffi_init_callback,
                ) =~= self@.callback_interfaces.take(k as int).map_values(
                    |c: CallbackInterfaceModel| c.ffi_init_callback,
                ).push(self@.callback_interfaces[k as int].ffi_init_callback));
            }
            k += 1;
        }
        assert(self@.callback_interfaces.take(k as int) =~= self@.callback_interfaces);
        let ghost second = out@.map_values(|f: &FFIFunction| f@);
        let mut n: usize = 0;
        while n < self.functions.len()
            invariant
                n <= self.functions@.len(),
                out@.map_values(|f: &FFIFunction| f@) == second + self@.functions.take(
                    n as int,
                ).map_values(|f: FunctionModel| f.ffi_func),
            decreases self.functions@.len() - n,
        {
            let ghost before = out@.map_values(|f: &FFIFunction| f@);
            out.push(self.functions[n].ffi_func());
            proof {
                assert(out@.map_values(|f: &FFIFunction| f@) =~= before.push(
                    self@.functions[n as int].ffi_func,
                ));
                assert(self@.functions.take(n as int + 1).map_values(
                    |f: FunctionModel| f.ffi_func,
                ) =~= self@.functions.take(n as int).map_values(
                    |f: FunctionModel| f.ffi_func,
                ).push(self@.functions[n as int].ffi_func));
            }
            n += 1;
        }
        assert(self@.functions.take(n as int) =~= self@.functions);
        out
    }

    /// Every low-level function of the interface: what the native side has to
    /// export and the foreign side has to declare.
    pub fn iter_ffi_function_definitions(&self) -> (r: Vec<FFIFunction>)
        ensures
            views(r@) == self@.ffi_functions(),
    {
        let user = self.iter_user_ffi_function_definitions();
        let mut out: Vec<FFIFunction> = Vec::new();
        let mut i: usize = 0;
        while i < user.len()
            invariant
                i <= user@.len(),
                out@.len() == i,
                forall|j: int| 0 <= j < i ==> out@[j]@ == user@[j]@,
            decreases user@.len() - i,
        {
            out.push(user[i].clone());
            i += 1;
        }
        assert(views(out@) =~= user@.map_values(|f: &FFIFunction| f@));
        let ghost front = views(out@);
        let mut buffer = self.iter_rust_buffer_ffi_function_definitions();
        let ghost back = views(buffer@);
        out.append(&mut buffer);
        assert(views(out@) =~= front + back);
        out
    }

    /// Binds `name` to `type_` in the registry of the interface, and records
    /// the type as seen. A name that is already bound, built-in names included,
    /// can only be bound again to the type it has; and no name of a function can
    /// be bound.
    pub fn add_type_definition(&mut self, name: &str, type_: Type) -> (r: Result<
        (),
        InterfaceError,
    >)
        requires
            old(self).wf(),
        ensures
            final(self).wf(),
            match old(self)@.with_type(name@, type_@) {
                Ok(m) => r is Ok && final(self)@ == m,
                Err(f) => r is Err && r->Err_0@ == f && final(self)@ == old(self)@,
            },
    {
        proof {
            self.types.lemma_wf();
            lemma_position(self@.functions.map_values(|f: FunctionModel| f.name), name@);
        }
        if resolve_builtin_type(name).is_none() && self.types.get_type_definition(name).is_none()
            && self.get_function_definition(name).is_some() {
            return Err(InterfaceError::DuplicateDefinition(name.to_owned()));
        }
        let r = self.types.add_type_definition(name, type_);
        proof {
            assert forall|i: int| 0 <= i < self@.functions.len() implies !(
            #[trigger] self@.types.definitions.contains_key(self@.functions[i].name)) by {
                assert(self@.functions.map_values(|f: FunctionModel| f.name)[i]
                    == self@.functions[i].name);
            }
        }
        r
    }

    /// Records a type, and before it its structural components, as seen.
    pub fn add_known_type(&mut self, type_: &Type)
        requires
            old(self).wf(),
        ensures
            final(self).wf(),
            final(self)@ == (InterfaceModel {
                types: UniverseModel {
                    known: register(old(self)@.types.known, type_@),
                    ..old(self)@.types
                },
                ..old(self)@
            }),
    {
        self.types.add_known_type(type_);
    }

    /// Resolves a type expression against the registry of the interface, and
    /// records the type it denotes, with every structure built on the way, as seen.
    pub fn resolve_type_expression(&mut self, expr: &TypeExpr) -> (r: Result<Type, InterfaceError>)
        requires
            old(self).wf(),
        ensures
            final(self).wf(),
            match resolve(old(self)@.types.definitions, *expr) {
                Ok(t) => r is Ok && r->Ok_0@ == t && final(self)@ == (InterfaceModel {
                    types: UniverseModel {
                        known: register(old(self)@.types.known, t),
                        ..old(self)@.types
                    },
                    ..old(self)@
                }),
                Err(f) => r is Err && r->Err_0@ == f && final(self)@ == old(self)@,
            },
    {
        self.types.resolve_type_expression(expr)
    }

    /// Sets the namespace. An interface has one namespace: a second one is refused.
    pub fn add_namespace_definition(&mut self, defn: Namespace) -> (r: Result<(), InterfaceError>)
        requires
            old(self).wf(),
        ensures
            final(self).wf(),
            if old(self)@.namespace.len() > 0 {
                r is Err && r->Err_0@ == Failure::DuplicateDefinition(defn.name_of()) && final(self)@ == old(self)@
            } else {
                r is Ok && final(self)@ == (InterfaceModel {
                    namespace: defn.name_of(),
                    ..old(self)@
                })
            },
    {
        if self.namespace.as_str().unicode_len() > 0 {
            return Err(InterfaceError::DuplicateDefinition(defn.name));
        }
        self.namespace = defn.name;
        Ok(())
    }

    /// Adds an enum.
    pub fn add_enum_definition(&mut self, defn: Enum)
        requires
            old(self).wf(),
        ensures
            final(self).wf(),
            final(self)@ == (InterfaceModel { enums: old(self)@.enums.push(defn@), ..old(self)@ }),
    {
        self.enums.push(defn);
        assert(self@.enums =~= old(self)@.enums.push(defn@));
    }

    /// Adds a record.
    pub fn add_record_definition(&mut self, defn: Record)
        requires
            old(self).wf(),
        ensures
            final(self).wf(),
            final(self)@ == (InterfaceModel {
                records: old(self)@.records.push(defn@),
                ..old(self)@
            }),
    {
        self.records.push(defn);
        assert(self@.records =~= old(self)@.records.push(defn@));
    }

    /// Adds a function. A function cannot bear the name of another function, nor
    /// that of a declared type.
    pub fn add_function_definition(&mut self, defn: Function) -> (r: Result<(), InterfaceError>)
        requires
            old(self).wf(),
        ensures
            final(self).wf(),
            if old(self)@.function_collides(defn@.name) {
                r is Err && r->Err_0@ == Failure::DuplicateDefinition(defn@.name) && final(self)@
                    == old(self)@
            } else {
                r is Ok && final(self)@ == (InterfaceModel {
                    functions: old(self)@.functions.push(defn@),
                    ..old(self)@
                })
            },
    {
        if self.get_function_definition(defn.name()).is_some() {
            return Err(InterfaceError::DuplicateDefinition(defn.name.clone()));
        }
        if self.types.get_type_definition(defn.name()).is_some() {
            return Err(InterfaceError::DuplicateDefinition(defn.name.clone()));
        }
        self.functions.push(defn);
        proof {
            let before = old(self)@.functions;
            assert(self@.functions =~= before.push(defn@));
            let names = before.map_values(|f: FunctionModel| f.name);
            assert(old(self)@.names_apart());
            lemma_position(names, defn@.name);
            assert forall|i: int, j: int|
                0 <= i < j < self@.functions.len() implies self@.functions[i].name
                != self@.functions[j].name by {
                if j == before.len() {
                    assert(names[i] == before[i].name);
                    assert(names[i] != defn@.name);
                }
            }
        }
        Ok(())
    }

    /// Adds an object.
    pub fn add_object_definition(&mut self, defn: Object)
        requires
            old(self).wf(),
        ensures
            final(self).wf(),
            final(self)@ == (InterfaceModel {
                objects: old(self)@.objects.push(defn@),
                ..old(self)@
            }),
    {
        self.objects.push(defn);
        assert(self@.objects =~= old(self)@.objects.push(defn@));
    }

    /// Adds a callback interface.
    pub fn add_callback_interface_definition(&mut self, defn: CallbackInterface)
        requires
            old(self).wf(),
        ensures
            final(self).wf(),
            final(self)@ == (InterfaceModel {
                callback_interfaces: old(self)@.callback_interfaces.push(defn@),
                ..old(self)@
            }),
    {
        self.callback_interfaces.push(defn);
        assert(self@.callback_interfaces =~= old(self)@.callback_interfaces.push(defn@));
    }

    /// Adds an error family.
    pub fn add_error_definition(&mut self, defn: Error)
        requires
            old(self).wf(),
        ensures
            final(self).wf(),
            final(self)@ == (InterfaceModel {
                errors: old(self)@.errors.push(defn@),
                ..old(self)@
            }),
    {
        self.errors.push(defn);
        assert(self@.errors =~= old(self)@.errors.push(defn@));
    }

    /// Checks the interface as a whole, once every declaration is in place: it
    /// must have a namespace, and no variant of an enum may bear the name of a
    /// declared type. The first breach found is reported, with the name at fault.
    pub fn check_consistency(&self) -> (r: Result<(), InterfaceError>)
        requires
            self.wf(),
        ensures
            match self@.inconsistency() {
                Some(i) => r is Err && r->Err_0@ == Failure::ConsistencyViolation(i),
                None => r is Ok,
            },
    {
        if self.namespace.as_str().unicode_len() == 0 {
            return Err(InterfaceError::ConsistencyViolation(Inconsistency::MissingNamespace));
        }
        let ghost definitions = self@.types.definitions;
        let ghost shadows = |e: EnumModel| shadowing_variant(definitions, e) is Some;
        let mut i: usize = 0;
        while i < self.enums.len()
            invariant
                self.wf(),
                i <= self.enums@.len(),
                definitions == self@.types.definitions,
                shadows == (|e: EnumModel| shadowing_variant(definitions, e) is Some),
                self@.namespace.len() > 0,
                forall|j: int| 0 <= j < i ==> !shadows(#[trigger] self@.enums[j]),
            decreases self.enums@.len() - i,
        {
            let e = &self.enums[i];
            let ghost bound = |v: VariantModel| definitions.contains_key(v.name);
            let mut k: usize = 0;
            while k < e.variants.len()
                invariant
                    self.wf(),
                    i < self.enums@.len(),
                    e == &self.enums@[i as int],
                    k <= e.variants@.len(),
                    definitions == self@.types.definitions,
                    bound == (|v: VariantModel| definitions.contains_key(v.name)),
                    shadows == (|e: EnumModel| shadowing_variant(definitions, e) is Some),
                    self@.namespace.len() > 0,
                    forall|j: int| 0 <= j < i ==> !shadows(#[trigger] self@.enums[j]),
                    forall|j: int| 0 <= j < k ==> !bound(#[trigger] e@.variants[j]),
                decreases e.variants@.len() - k,
            {
                if self.types.get_type_definition(e.variants[k].name()).is_some() {
                    proof {
                        assert(bound(e@.variants[k as int]));
                        lemma_first_index_at(e@.variants, bound, k as int);
                        assert(shadows(self@.enums[i as int]));
                        lemma_first_index_at(self@.enums, shadows, i as int);
                    }
                    return Err(
                        InterfaceError::ConsistencyViolation(
                            Inconsistency::ShadowedTypeName(e.variants[k].name.clone()),
                        ),
                    );
                }
                k += 1;
            }
            proof {
                lemma_first_index_none(e@.variants, bound);
            }
            i += 1;
        }
        proof {
            lemma_first_index_none(self@.enums, shadows);
        }
        Ok(())
    }

    /// Derives every low-level function of the interface from its declarations.
    /// It is to be called once the declarations are settled, since every symbol
    /// holds the checksum of the content. Every type has a low-level counterpart,
    /// so this never fails.
    pub fn derive_ffi_funcs(&mut self) -> (r: Result<(), InterfaceError>)
        requires
            old(self).wf(),
        ensures
            r is Ok,
            final(self).wf(),
            final(self)@ == old(self)@.derived(),
    {
        let ci_prefix = self.ffi_namespace();
        let ghost prefix = ci_prefix@;
        let mut i: usize = 0;
        while i < self.functions.len()
            invariant
                i <= self.functions@.len(),
                prefix == ci_prefix@,
                self.functions@.len() == old(self).functions@.len(),
                self.uniffi_version == old(self).uniffi_version,
                self.types == old(self).types,
                self.namespace == old(self).namespace,
                self.enums == old(self).enums,
                self.records == old(self).records,
                self.objects == old(self).objects,
                self.callback_interfaces == old(self).callback_interfaces,
                self.errors == old(self).errors,
                forall|j: int|
                    0 <= j < i ==> (#[trigger] self.functions@[j])@ == old(
                        self,
                    ).functions@[j]@.derived(prefix),
                forall|j: int|
                    i <= j < self.functions@.len() ==> (#[trigger] self.functions@[j]) == old(
                        self,
                    ).functions@[j],
            decreases self.functions@.len() - i,
        {
            let _ = self.functions[i].derive_ffi_func(ci_prefix.as_str());
            i += 1;
        }
        assert(self@.functions =~= old(self)@.derived().functions);
        let ghost functions = self.functions;
        let mut k: usize = 0;
        while k < self.objects.len()
            invariant
                k <= self.objects@.len(),
                prefix == ci_prefix@,
                self.objects@.len() == old(self).objects@.len(),
                self.uniffi_version == old(self).uniffi_version,
                self.types == old(self).types,
                self.namespace == old(self).namespace,
                self.enums == old(self).enums,
                self.records == old(self).records,
                self.functions == functions,
                self.callback_interfaces == old(self).callback_interfaces,
                self.errors == old(self).errors,
                forall|j: int|
                    0 <= j < k ==> (#[trigger] self.objects@[j])@ == old(
                        self,
                    ).objects@[j]@.derived(prefix),
                forall|j: int|
                    k <= j < self.objects@.len() ==> (#[trigger] self.objects@[j]) == old(
                        self,
                    ).objects@[j],
            decreases self.objects@.len() - k,
        {
            let _ = self.objects[k].derive_ffi_funcs(ci_prefix.as_str());
            k += 1;
        }
        assert(self@.objects =~= old(self)@.derived().objects);
        let ghost objects = self.objects;
        let mut n: usize = 0;
        while n < self.callback_interfaces.len()
            invariant
                n <= self.callback_interfaces@.len(),
                prefix == ci_prefix@,
                self.callback_interfaces@.len() == old(self).callback_interfaces@.len(),
                self.uniffi_version == old(self).uniffi_version,
                self.types == old(self).types,
                self.namespace == old(self).namespace,
                self.enums == old(self).enums,
                self.records == old(self).records,
                self.functions == functions,
                self.objects == objects,
                self.errors == old(self).errors,
                forall|j: int|
                    0 <= j < n ==> (#[trigger] self.callback_interfaces@[j])@ == old(
                        self,
                    ).callback_interfaces@[j]@.derived(prefix),
                forall|j: int|
                    n <= j < self.callback_interfaces@.len() ==> (
                    #[trigger] self.callback_interfaces@[j]) == old(self).callback_interfaces@[j],
            decreases self.callback_interfaces@.len() - n,
        {
            self.callback_interfaces[n].derive_ffi_funcs(ci_prefix.as_str());
            n += 1;
        }
        assert(self@.callback_interfaces =~= old(self)@.derived().callback_interfaces);
        Ok(())
    }
}

} // verus!
