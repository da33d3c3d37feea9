//! Interfaces from metadata: the records that annotated declarations of a
//! component leave behind, one per function, struct and enum. They arrive in no
//! particular order, so they are gone through twice: once for the types that
//! they declare, once for the functions.

use vstd::prelude::*;
use crate::attributes::FunctionAttributes;
use crate::builder::with_function;
use crate::enum_::{Enum, EnumModel, Variant, VariantModel};
use crate::error::{Error, ErrorModel};
use crate::failure::{Failure, InterfaceError};
use crate::ffi::{FFIFunction, FFIFunctionModel};
use crate::fold::{
    first_index, lemma_first_index_at, lemma_first_index_none, lemma_reached_failure,
    lemma_try_each_done, lemma_try_each_failure, lemma_try_each_step, reached, try_each,
};
use crate::function::{Function, FunctionModel};
use crate::interface::{ComponentInterface, InterfaceModel};
use crate::record::{Record, RecordModel};
use crate::text::str_eq;
use crate::types::{Type, TypeModel};
use vstd::string::StringExecFns;

verus! {

/// What is known of a variant of an enum.
#[derive(Debug, PartialEq, Eq)]
pub struct EnumVariantMetadata {
    pub name: String,
}

/// What is known of an enum.
#[derive(Debug, PartialEq, Eq)]
pub struct EnumMetadata {
    pub name: String,
    pub variants: Vec<EnumVariantMetadata>,
}

/// What is known of a parameter of a function: so far, only that it is there.
#[derive(Debug, PartialEq, Eq)]
pub struct FnParamMetadata {}

/// What is known of a function.
#[derive(Debug, PartialEq, Eq)]
pub struct FnMetadata {
    /// The module that the function stands in.
    pub module: String,
    pub name: String,
    pub inputs: Vec<FnParamMetadata>,
    /// The name of the type that the function returns, if it returns a value.
    pub output: Option<String>,
}

/// What is known of a function of an `impl` block.
#[derive(Debug, PartialEq, Eq)]
pub struct ImplFnMetadata {
    pub name: String,
    pub inputs: Vec<FnParamMetadata>,
    pub output: Option<String>,
}

/// What is known of an `impl` block.
#[derive(Debug, PartialEq, Eq)]
pub struct ImplMetadata {
    pub module: String,
    pub self_name: String,
    pub fn_metadata: Vec<ImplFnMetadata>,
}

/// What is known of a struct.
#[derive(Debug, PartialEq, Eq)]
pub struct StructMetadata {
    pub name: String,
}

/// A record of metadata.
#[derive(Debug, PartialEq, Eq)]
pub enum Metadata {
    Func(FnMetadata),
    Record(StructMetadata),
    Enum(EnumMetadata),
    /// An error family, described as an enum is.
    Error(EnumMetadata),
}

/// The type that a native type name stands for, where metadata can name it.
pub open spec fn native_type(name: Seq<char>) -> Option<TypeModel> {
    if name == "u8"@ {
        Some(TypeModel::UInt8)
    } else if name == "u16"@ {
        Some(TypeModel::UInt16)
    } else if name == "u32"@ {
        Some(TypeModel::UInt32)
    } else if name == "u64"@ {
        Some(TypeModel::UInt64)
    } else if name == "i8"@ {
        Some(TypeModel::Int8)
    } else if name == "i16"@ {
        Some(TypeModel::Int16)
    } else if name == "i32"@ {
        Some(TypeModel::Int32)
    } else if name == "i64"@ {
        Some(TypeModel::Int64)
    } else if name == "f32"@ {
        Some(TypeModel::Float32)
    } else if name == "f64"@ {
        Some(TypeModel::Float64)
    } else if name == "bool"@ {
        Some(TypeModel::Boolean)
    } else if name == "String"@ {
        Some(TypeModel::String)
    } else {
        None
    }
}

/// Resolves a native type name.
pub fn resolve_native_type(name: &str) -> (r: Option<Type>)
    ensures
        r is Some <==> native_type(name@) is Some,
        r matches Some(t) ==> Some(t@) == native_type(name@),
{
    if str_eq(name, "u8") {
        Some(Type::UInt8)
    } else if str_eq(name, "u16") {
        Some(Type::UInt16)
    } else if str_eq(name, "u32") {
        Some(Type::UInt32)
    } else if str_eq(name, "u64") {
        Some(Type::UInt64)
    } else if str_eq(name, "i8") {
        Some(Type::Int8)
    } else if str_eq(name, "i16") {
        Some(Type::Int16)
    } else if str_eq(name, "i32") {
        Some(Type::Int32)
    } else if str_eq(name, "i64") {
        Some(Type::Int64)
    } else if str_eq(name, "f32") {
        Some(Type::Float32)
    } else if str_eq(name, "f64") {
        Some(Type::Float64)
    } else if str_eq(name, "bool") {
        Some(Type::Boolean)
    } else if str_eq(name, "String") {
        Some(Type::String)
    } else {
        None
    }
}

impl FnMetadata {
    /// Whether a function can be made of the metadata: the function takes no
    /// parameter, and what it returns, if anything, is of a native type that
    /// metadata can name.
    pub open spec fn supported(&self) -> bool {
        &&& self.inputs@.len() == 0
        &&& self.output matches Some(out) ==> native_type(out@) is Some
    }

    /// Whether a function can be made of the metadata.
    pub fn is_supported(&self) -> (r: bool)
        ensures
            r == self.supported(),
    {
        if self.inputs.len() > 0 {
            return false;
        }
        match &self.output {
            Some(out) => resolve_native_type(out.as_str()).is_some(),
            None => true,
        }
    }

    /// The function that the metadata describes.
    pub open spec fn function(&self) -> FunctionModel {
        FunctionModel {
            name: self.name@,
            arguments: Seq::empty(),
            return_type: match self.output {
                Some(out) => native_type(out@),
                None => None,
            },
            ffi_func: FFIFunctionModel {
                name: "__uniffi_"@ + self.name@,
                arguments: Seq::empty(),
                return_type: None,
            },
            attributes: Seq::empty(),
        }
    }
}

impl Function {
    /// The function that metadata describes: it bears the name that the
    /// metadata gives, takes no argument and returns the native type that the
    /// metadata names. Its low-level function is preset to a symbol made of its name.
    pub fn from_metadata(meta: &FnMetadata) -> (r: Function)
        requires
            meta.supported(),
        ensures
            r@ == meta.function(),
    {
        let return_type = match &meta.output {
            Some(out) => resolve_native_type(out.as_str()),
            None => None,
        };
        let mut symbol = "__uniffi_".to_owned();
        symbol.append(meta.name.as_str());
        let r = Function {
            name: meta.name.clone(),
            arguments: Vec::new(),
            return_type,
            ffi_func: FFIFunction { name: symbol, arguments: Vec::new(), return_type: None },
            attributes: FunctionAttributes::default(),
        };
        assert(r@.arguments =~= Seq::empty());
        assert(r@.ffi_func.arguments =~= Seq::empty());
        r
    }
}

impl StructMetadata {
    /// The record that the metadata describes: of its fields nothing is known.
    pub open spec fn record(&self) -> RecordModel {
        RecordModel { name: self.name@, fields: Seq::empty() }
    }

    /// The record that the metadata describes.
    pub fn to_record(&self) -> (r: Record)
        ensures
            r@ == self.record(),
    {
        let r = Record { name: self.name.clone(), fields: Vec::new() };
        assert(r@.fields =~= Seq::empty());
        r
    }
}

impl EnumMetadata {
    /// The enum that the metadata describes: its variants have no fields.
    pub open spec fn enumeration(&self) -> EnumModel {
        EnumModel {
            name: self.name@,
            variants: self.variants@.map_values(
                |v: EnumVariantMetadata| VariantModel { name: v.name@, fields: Seq::empty() },
            ),
        }
    }

    /// The enum that the metadata describes.
    pub fn to_enum(&self) -> (r: Enum)
        ensures
            r@ == self.enumeration(),
    {
        let mut out: Vec<Variant> = Vec::new();
        let mut i: usize = 0;
        while i < self.variants.len()
            invariant
                i <= self.variants@.len(),
                out@.len() == i,
                forall|j: int|
                    0 <= j < i ==> (#[trigger] out@[j])@ == (VariantModel {
                        name: self.variants@[j].name@,
                        fields: Seq::empty(),
                    }),
            decreases self.variants@.len() - i,
        {
            let v = Variant { name: self.variants[i].name.clone(), fields: Vec::new() };
            assert(v@.fields =~= Seq::empty());
            out.push(v);
            i += 1;
        }
        let r = Enum { name: self.name.clone(), variants: out };
        assert(r@.variants =~= self.enumeration().variants);
        r
    }
}

/// What the first pass over the metadata does with one record: a struct
/// declares a record, an enum declares an enum, an error family declares an
/// error family, each under its name. Where the
/// interface has a declaration of the kind and the name already, that one stands.
pub open spec fn declare_step(m: InterfaceModel, item: Metadata) -> Result<InterfaceModel, Failure> {
    match item {
        Metadata::Func(meta) => Ok(m),
        Metadata::Record(meta) => match m.with_type(meta.name@, TypeModel::Record(meta.name@)) {
            Err(f) => Err(f),
            Ok(m) => if m.record_named(meta.name@) is Some {
                Ok(m)
            } else {
                Ok(InterfaceModel { records: m.records.push(meta.record()), ..m })
            },
        },
        Metadata::Enum(meta) => match m.with_type(meta.name@, TypeModel::Enum(meta.name@)) {
            Err(f) => Err(f),
            Ok(m) => if m.enum_named(meta.name@) is Some {
                Ok(m)
            } else {
                Ok(InterfaceModel { enums: m.enums.push(meta.enumeration()), ..m })
            },
        },
        Metadata::Error(meta) => match m.with_type(meta.name@, TypeModel::Error(meta.name@)) {
            Err(f) => Err(f),
            Ok(m) => if m.error_named(meta.name@) is Some {
                Ok(m)
            } else {
                Ok(
                    InterfaceModel {
                        errors: m.errors.push(ErrorModel { enum_: meta.enumeration() }),
                        ..m
                    },
                )
            },
        },
    }
}

/// What the second pass over the metadata does with one record: a function is added.
pub open spec fn function_step(m: InterfaceModel, item: Metadata) -> Result<InterfaceModel, Failure> {
    match item {
        Metadata::Func(meta) => with_function(m, meta.function()),
        _ => Ok(m),
    }
}

/// Whether a function can be made of every record of a function.
pub open spec fn all_supported(items: Seq<Metadata>) -> bool {
    forall|i: int|
        0 <= i < items.len() ==> ((#[trigger] items[i]) matches Metadata::Func(meta)
            ==> meta.supported())
}

/// The interface after the records of metadata were added to it: first the
/// types of all records, then their functions; then the interface is checked as a
/// whole, and its low-level functions are derived.
pub open spec fn merged(m: InterfaceModel, items: Seq<Metadata>) -> Result<InterfaceModel, Failure> {
    match try_each(m, items, |m: InterfaceModel, item: Metadata| declare_step(m, item)) {
        Err(f) => Err(f),
        Ok(m) => match try_each(
            m,
            items,
            |m: InterfaceModel, item: Metadata| function_step(m, item),
        ) {
            Err(f) => Err(f),
            Ok(m) => match m.inconsistency() {
                Some(i) => Err(Failure::ConsistencyViolation(i)),
                None => Ok(m.derived()),
            },
        },
    }
}

/// The interface that is left when records of metadata were added to it. Where
/// all goes well, it is the interface of [`merged`]. Where a record fails, it is
/// the interface as the records before it have left it: the failing record has
/// changed nothing, and nothing was derived. Where the check of the whole fails,
/// it is the interface with every record added, and nothing derived.
pub open spec fn left_behind(m: InterfaceModel, items: Seq<Metadata>) -> InterfaceModel {
    let declare = |m: InterfaceModel, item: Metadata| declare_step(m, item);
    let add = |m: InterfaceModel, item: Metadata| function_step(m, item);
    match try_each(m, items, declare) {
        Err(_) => reached(m, items, declare),
        Ok(declared) => match try_each(declared, items, add) {
            Err(_) => reached(declared, items, add),
            Ok(all) => match all.inconsistency() {
                Some(_) => all,
                None => all.derived(),
            },
        },
    }
}

/// Whether a function can be made of every record of a function.
pub fn check_supported(items: &Vec<Metadata>) -> (r: bool)
    ensures
        r == all_supported(items@),
{
    let mut i: usize = 0;
    while i < items.len()
        invariant
            i <= items@.len(),
            forall|j: int|
                0 <= j < i ==> ((#[trigger] items@[j]) matches Metadata::Func(meta)
                    ==> meta.supported()),
        decreases items@.len() - i,
    {
        if let Metadata::Func(meta) = &items[i] {
            if !meta.is_supported() {
                return false;
            }
        }
        i += 1;
    }
    true
}

fn declare_one(iface: &mut ComponentInterface, item: &Metadata) -> (r: Result<(), InterfaceError>)
    requires
        old(iface).wf(),
    ensures
        final(iface).wf(),
        match declare_step(old(iface)@, *item) {
            Ok(m) => r is Ok && final(iface)@ == m,
            Err(f) => r is Err && r->Err_0@ == f && final(iface)@ == old(iface)@,
        },
{
    match item {
        Metadata::Func(meta) => Ok(()),
        Metadata::Record(meta) => {
            match iface.add_type_definition(meta.name.as_str(), Type::Record(meta.name.clone())) {
                Ok(()) => {
                    if iface.get_record_definition(meta.name.as_str()).is_none() {
                        iface.add_record_definition(meta.to_record());
                    }
                    Ok(())
                },
                Err(f) => Err(f),
            }
        },
        Metadata::Enum(meta) => {
            match iface.add_type_definition(meta.name.as_str(), Type::Enum(meta.name.clone())) {
                Ok(()) => {
                    if iface.get_enum_definition(meta.name.as_str()).is_none() {
                        iface.add_enum_definition(meta.to_enum());
                    }
                    Ok(())
                },
                Err(f) => Err(f),
            }
        },
        Metadata::Error(meta) => {
            match iface.add_type_definition(meta.name.as_str(), Type::Error(meta.name.clone())) {
                Ok(()) => {
                    if iface.get_error_definition(meta.name.as_str()).is_none() {
                        iface.add_error_definition(Error::from_enum(meta.to_enum()));
                    }
                    Ok(())
                },
                Err(f) => Err(f),
            }
        },
    }
}

fn add_function_of(iface: &mut ComponentInterface, item: &Metadata) -> (r: Result<
    (),
    InterfaceError,
>)
    requires
        old(iface).wf(),
        item matches Metadata::Func(meta) ==> meta.supported(),
    ensures
        final(iface).wf(),
        match function_step(old(iface)@, *item) {
            Ok(m) => r is Ok && final(iface)@ == m,
            Err(f) => r is Err && r->Err_0@ == f && final(iface)@ == old(iface)@,
        },
{
    match item {
        Metadata::Func(meta) => iface.add_function_definition(Function::from_metadata(meta)),
        _ => Ok(()),
    }
}

/// Adds records of metadata to an interface. The records may come in any
/// order: the types that they declare are added before any function is. Then
/// the interface is checked as a whole, and only if the check passes are its
/// low-level functions derived. A record that fails changes nothing: after a
/// failure the interface holds what the records before the failing one have
/// added, and no low-level function of it was derived or changed.
pub fn add_to_ci(iface: &mut ComponentInterface, metadata_items: Vec<Metadata>) -> (r: Result<
    (),
    InterfaceError,
>)
    requires
        old(iface).wf(),
        all_supported(metadata_items@),
    ensures
        final(iface).wf(),
        match merged(old(iface)@, metadata_items@) {
            Ok(m) => r is Ok && final(iface)@ == m,
            Err(f) => r is Err && r->Err_0@ == f,
        },
        final(iface)@ == left_behind(old(iface)@, metadata_items@),
{
    let ghost start = iface@;
    let ghost items = metadata_items@;
    let ghost declare = |m: InterfaceModel, item: Metadata| declare_step(m, item);
    let mut i: usize = 0;
    proof {
        lemma_try_each_done(start, items, declare);
    }
    while i < metadata_items.len()
        invariant
            i <= metadata_items@.len(),
            iface.wf(),
            start == old(iface)@,
            items == metadata_items@,
            declare == (|m: InterfaceModel, item: Metadata| declare_step(m, item)),
            try_each(start, items.take(i as int), declare) == Ok::<InterfaceModel, Failure>(
                iface@,
            ),
        decreases metadata_items@.len() - i,
    {
        proof {
            lemma_try_each_step(start, items, declare, i as int);
        }
        match declare_one(iface, &metadata_items[i]) {
            Ok(()) => {},
            Err(f) => {
                proof {
                    lemma_try_each_failure(start, items, declare, i as int + 1);
                    lemma_reached_failure(start, items, declare, i as int, items.len() as int);
                    assert(items.take(items.len() as int) =~= items);
                }
                return Err(f);
            },
        }
        i += 1;
    }
    proof {
        lemma_try_each_done(start, items, declare);
    }
    let ghost declared = iface@;
    let ghost add = |m: InterfaceModel, item: Metadata| function_step(m, item);
    let mut k: usize = 0;
    proof {
        lemma_try_each_done(declared, items, add);
    }
    while k < metadata_items.len()
        invariant
            k <= metadata_items@.len(),
            iface.wf(),
            start == old(iface)@,
            items == metadata_items@,
            all_supported(items),
            declare == (|m: InterfaceModel, item: Metadata| declare_step(m, item)),
            add == (|m: InterfaceModel, item: Metadata| function_step(m, item)),
            try_each(start, items, declare) == Ok::<InterfaceModel, Failure>(declared),
            try_each(declared, items.take(k as int), add) == Ok::<InterfaceModel, Failure>(
                iface@,
            ),
        decreases metadata_items@.len() - k,
    {
        proof {
            lemma_try_each_step(declared, items, add, k as int);
        }
        match add_function_of(iface, &metadata_items[k]) {
            Ok(()) => {},
            Err(f) => {
                proof {
                    lemma_try_each_failure(declared, items, add, k as int + 1);
                    lemma_reached_failure(declared, items, add, k as int, items.len() as int);
                    assert(items.take(items.len() as int) =~= items);
                }
                return Err(f);
            },
        }
        k += 1;
    }
    proof {
        lemma_try_each_done(declared, items, add);
    }
    match iface.check_consistency() {
        Ok(()) => {},
        Err(f) => {
            return Err(f);
        },
    }
    iface.derive_ffi_funcs()
}


/// The syntax of a type, as far as metadata reads it.
#[derive(Debug, PartialEq, Eq)]
pub enum TypeSyntax {
    /// A type in invisible brackets.
    Group(Box<TypeSyntax>),
    /// A path: whether it is qualified by a self type, and the one identifier
    /// that it consists of, if it consists of one.
    Path { qualified: bool, ident: Option<String> },
    /// Any other type.
    Other,
}

/// The syntax of a function, as far as metadata reads it.
#[derive(Debug, PartialEq, Eq)]
pub struct FnSyntax {
    pub name: String,
    /// The number of parameters.
    pub inputs: usize,
    /// The type of the result, where the function returns a value.
    pub output: Option<TypeSyntax>,
}

/// An item of an `impl` block.
#[derive(Debug, PartialEq, Eq)]
pub enum ImplItemSyntax {
    Method(FnSyntax),
    Other,
}

/// The syntax of an `impl` block, as far as metadata reads it.
#[derive(Debug, PartialEq, Eq)]
pub struct ImplSyntax {
    pub self_ty: TypeSyntax,
    pub items: Vec<ImplItemSyntax>,
}

/// The syntax of an enum, as far as metadata reads it.
#[derive(Debug, PartialEq, Eq)]
pub struct EnumSyntax {
    pub name: String,
    pub variants: Vec<String>,
}

/// The syntax of a struct, as far as metadata reads it.
#[derive(Debug, PartialEq, Eq)]
pub struct StructSyntax {
    pub name: String,
}

/// An annotated item.
#[derive(Debug, PartialEq, Eq)]
pub enum ItemSyntax {
    Enum(EnumSyntax),
    Fn(FnSyntax),
    Impl(ImplSyntax),
    Struct(StructSyntax),
    Other,
}

/// Why no metadata can be made of an annotated item.
#[derive(Debug, Clone, Copy, PartialEq, Eq, Hash, Structural)]
pub enum ExportError {
    /// A type is a path qualified by a self type.
    QualifiedSelf,
    /// A type is a path of more than one identifier.
    NotAnIdentifier,
    /// A type is no path.
    UnsupportedType,
    /// An item of an `impl` block is no method.
    UnsupportedImplItem,
    /// The item is an `impl` block.
    ImplNotSupported,
    /// The item is neither a function, a struct, an enum nor an `impl` block.
    UnsupportedItem,
}

impl ExportError {
    /// The failure in words.
    pub open spec fn words(self) -> Seq<char> {
        match self {
            ExportError::QualifiedSelf => "qualified self types are not currently supported by uniffi::export"@,
            ExportError::NotAnIdentifier => "only types named by one identifier are supported by uniffi::export"@,
            ExportError::UnsupportedType => "unsupported type syntax for uniffi::export"@,
            ExportError::UnsupportedImplItem => "item type not supported by uniffi::export"@,
            ExportError::ImplNotSupported => "support for impl blocks coming soon"@,
            ExportError::UnsupportedItem => "unsupported item: only functions, structs, enums and impl blocks may be annotated with this attribute"@,
        }
    }

    /// The failure in words.
    pub fn message(&self) -> (r: &'static str)
        ensures
            r@ == self.words(),
    {
        match self {
            ExportError::QualifiedSelf => "qualified self types are not currently supported by uniffi::export",
            ExportError::NotAnIdentifier => "only types named by one identifier are supported by uniffi::export",
            ExportError::UnsupportedType => "unsupported type syntax for uniffi::export",
            ExportError::UnsupportedImplItem => "item type not supported by uniffi::export",
            ExportError::ImplNotSupported => "support for impl blocks coming soon",
            ExportError::UnsupportedItem => "unsupported item: only functions, structs, enums and impl blocks may be annotated with this attribute",
        }
    }
}

/// The name of a type that is written as one identifier, brackets aside.
pub open spec fn type_name_of(ty: TypeSyntax) -> Result<Seq<char>, ExportError>
    decreases ty,
{
    match ty {
        TypeSyntax::Group(inner) => type_name_of(*inner),
        TypeSyntax::Path { qualified, ident } => if qualified {
            Err(ExportError::QualifiedSelf)
        } else {
            match ident {
                Some(id) => Ok(id@),
                None => Err(ExportError::NotAnIdentifier),
            }
        },
        TypeSyntax::Other => Err(ExportError::UnsupportedType),
    }
}

/// The name of the type of an optional result.
pub open spec fn output_name_of(output: Option<TypeSyntax>) -> Result<
    Option<Seq<char>>,
    ExportError,
> {
    match output {
        None => Ok(None),
        Some(ty) => match type_name_of(ty) {
            Ok(n) => Ok(Some(n)),
            Err(e) => Err(e),
        },
    }
}

/// What an optional name holds.
pub open spec fn optional_name(s: Option<String>) -> Option<Seq<char>> {
    match s {
        Some(s) => Some(s@),
        None => None,
    }
}

/// The name of a type that is written as one identifier.
pub fn name_of_type(ty: &TypeSyntax) -> (r: Result<String, ExportError>)
    ensures
        match type_name_of(*ty) {
            Ok(n) => r is Ok && r->Ok_0@ == n,
            Err(e) => r == Err::<String, ExportError>(e),
        },
    decreases ty,
{
    match ty {
        TypeSyntax::Group(inner) => name_of_type(inner),
        TypeSyntax::Path { qualified, ident } => {
            if *qualified {
                return Err(ExportError::QualifiedSelf);
            }
            match ident {
                Some(id) => Ok(id.clone()),
                None => Err(ExportError::NotAnIdentifier),
            }
        },
        TypeSyntax::Other => Err(ExportError::UnsupportedType),
    }
}

fn output_name(output: &Option<TypeSyntax>) -> (r: Result<Option<String>, ExportError>)
    ensures
        match output_name_of(*output) {
            Ok(n) => r is Ok && optional_name(r->Ok_0) == n,
            Err(e) => r == Err::<Option<String>, ExportError>(e),
        },
{
    match output {
        None => Ok(None),
        Some(ty) => match name_of_type(ty) {
            Ok(n) => Ok(Some(n)),
            Err(e) => Err(e),
        },
    }
}

fn parameters(count: usize) -> (r: Vec<FnParamMetadata>)
    ensures
        r@.len() == count,
{
    let mut out: Vec<FnParamMetadata> = Vec::new();
    let mut i: usize = 0;
    while i < count
        invariant
            i <= count,
            out@.len() == i,
        decreases count - i,
    {
        out.push(FnParamMetadata::new());
        i += 1;
    }
    out
}

/// Three parts of a file name, joined by dots.
pub open spec fn dotted(a: Seq<char>, b: Seq<char>, c: Seq<char>) -> Seq<char> {
    a + "."@ + b + "."@ + c
}

fn dot(a: &str, b: &str, c: &str) -> (r: String)
    ensures
        r@ == dotted(a@, b@, c@),
{
    let mut out = a.to_owned();
    out.append(".");
    out.append(b);
    out.append(".");
    out.append(c);
    out
}

impl FnParamMetadata {
    /// What is known of a parameter.
    pub fn new() -> (r: FnParamMetadata) {
        FnParamMetadata {  }
    }
}

impl EnumVariantMetadata {
    /// What is known of the variant named `name`.
    pub fn new(name: &str) -> (r: EnumVariantMetadata)
        ensures
            r.name@ == name@,
    {
        EnumVariantMetadata { name: name.to_owned() }
    }
}

impl EnumMetadata {
    /// What is known of an enum: its name, and the names of its variants in order.
    pub fn new(e: &EnumSyntax) -> (r: EnumMetadata)
        ensures
            r.name@ == e.name@,
            r.variants@.len() == e.variants@.len(),
            forall|i: int|
                0 <= i < r.variants@.len() ==> (#[trigger] r.variants@[i]).name@
                    == e.variants@[i]@,
    {
        let mut variants: Vec<EnumVariantMetadata> = Vec::new();
        let mut i: usize = 0;
        while i < e.variants.len()
            invariant
                i <= e.variants@.len(),
                variants@.len() == i,
                forall|j: int| 0 <= j < i ==> (#[trigger] variants@[j]).name@ == e.variants@[j]@,
            decreases e.variants@.len() - i,
        {
            variants.push(EnumVariantMetadata::new(e.variants[i].as_str()));
            i += 1;
        }
        EnumMetadata { name: e.name.clone(), variants }
    }

    /// The name of the file that holds the metadata: `type.`, the name of the
    /// enum, `.json`.
    pub fn file_name(&self) -> (r: String)
        ensures
            r@ == dotted("type"@, self.name@, "json"@),
    {
        dot("type", self.name.as_str(), "json")
    }
}

impl StructMetadata {
    /// What is known of a struct: its name.
    pub fn new(s: &StructSyntax) -> (r: StructMetadata)
        ensures
            r.name@ == s.name@,
    {
        StructMetadata { name: s.name.clone() }
    }

    /// The name of the file that holds the metadata: `type.`, the name of the
    /// struct, `.json`.
    pub fn file_name(&self) -> (r: String)
        ensures
            r@ == dotted("type"@, self.name@, "json"@),
    {
        dot("type", self.name.as_str(), "json")
    }
}

impl FnMetadata {
    /// What is known of a function of the module `module`: its name, the
    /// number of its parameters, and the name of the type that it returns. A
    /// result whose type is not written as one identifier is refused.
    pub fn new(f: &FnSyntax, module: &str) -> (r: Result<FnMetadata, ExportError>)
        ensures
            match output_name_of(f.output) {
                Ok(output) => r is Ok && r->Ok_0.module@ == module@ && r->Ok_0.name@ == f.name@
                    && r->Ok_0.inputs@.len() == f.inputs && optional_name(r->Ok_0.output)
                    == output,
                Err(e) => r == Err::<FnMetadata, ExportError>(e),
            },
    {
        match output_name(&f.output) {
            Ok(output) => Ok(
                FnMetadata {
                    module: module.to_owned(),
                    name: f.name.clone(),
                    inputs: parameters(f.inputs),
                    output,
                },
            ),
            Err(e) => Err(e),
        }
    }

    /// The name of the file that holds the metadata: `mod.`, the module,
    /// `.fn.`, the name of the function, `.json`.
    pub fn file_name(&self) -> (r: String)
        ensures
            r@ == dotted(dotted("mod"@, self.module@, "fn"@), self.name@, "json"@),
    {
        let front = dot("mod", self.module.as_str(), "fn");
        dot(front.as_str(), self.name.as_str(), "json")
    }
}

impl ImplFnMetadata {
    /// What is known of a function of an `impl` block.
    pub fn new(f: &FnSyntax) -> (r: Result<ImplFnMetadata, ExportError>)
        ensures
            match output_name_of(f.output) {
                Ok(output) => r is Ok && r->Ok_0.name@ == f.name@ && r->Ok_0.inputs@.len()
                    == f.inputs && optional_name(r->Ok_0.output) == output,
                Err(e) => r == Err::<ImplFnMetadata, ExportError>(e),
            },
    {
        match output_name(&f.output) {
            Ok(output) => Ok(
                ImplFnMetadata { name: f.name.clone(), inputs: parameters(f.inputs), output },
            ),
            Err(e) => Err(e),
        }
    }
}

/// What stands in the way of metadata for an item of an `impl` block.
pub open spec fn impl_item_failure(item: ImplItemSyntax) -> Option<ExportError> {
    match item {
        ImplItemSyntax::Method(f) => match output_name_of(f.output) {
            Ok(_) => None,
            Err(e) => Some(e),
        },
        ImplItemSyntax::Other => Some(ExportError::UnsupportedImplItem),
    }
}

/// Whether `meta` is what is known of the method that `item` is.
pub open spec fn describes(meta: ImplFnMetadata, item: ImplItemSyntax) -> bool {
    item matches ImplItemSyntax::Method(f) && meta.name@ == f.name@ && meta.inputs@.len()
        == f.inputs && Ok::<Option<Seq<char>>, ExportError>(optional_name(meta.output))
        == output_name_of(f.output)
}

/// What stands in the way of metadata for an `impl` block: the failure of the
/// first item that fails, or else that of the name of the type.
pub open spec fn impl_failure(i: ImplSyntax) -> Option<ExportError> {
    match first_index(
        i.items@,
        |item: ImplItemSyntax| impl_item_failure(item) is Some,
    ) {
        Some(k) => impl_item_failure(i.items@[k]),
        None => match type_name_of(i.self_ty) {
            Ok(_) => None,
            Err(e) => Some(e),
        },
    }
}

impl ImplMetadata {
    /// What is known of an `impl` block of the module `module`: the name of its
    /// type, and its functions in order.
    pub fn new(i: &ImplSyntax, module: &str) -> (r: Result<ImplMetadata, ExportError>)
        ensures
            match impl_failure(*i) {
                Some(e) => r == Err::<ImplMetadata, ExportError>(e),
                None => r is Ok && r->Ok_0.module@ == module@ && Ok::<Seq<char>, ExportError>(
                    r->Ok_0.self_name@,
                ) == type_name_of(i.self_ty) && r->Ok_0.fn_metadata@.len() == i.items@.len()
                    && forall|k: int|
                    0 <= k < i.items@.len() ==> describes(
                        #[trigger] r->Ok_0.fn_metadata@[k],
                        i.items@[k],
                    ),
            },
    {
        let ghost fails = |item: ImplItemSyntax| impl_item_failure(item) is Some;
        let mut fn_metadata: Vec<ImplFnMetadata> = Vec::new();
        let mut k: usize = 0;
        while k < i.items.len()
            invariant
                k <= i.items@.len(),
                fails == (|item: ImplItemSyntax| impl_item_failure(item) is Some),
                fn_metadata@.len() == k,
                forall|j: int| 0 <= j < k ==> !fails(#[trigger] i.items@[j]),
                forall|j: int|
                    0 <= j < k ==> describes(#[trigger] fn_metadata@[j], i.items@[j]),
            decreases i.items@.len() - k,
        {
            match &i.items[k] {
                ImplItemSyntax::Method(f) => match ImplFnMetadata::new(f) {
                    Ok(meta) => {
                        fn_metadata.push(meta);
                    },
                    Err(e) => {
                        proof {
                            lemma_first_index_at(i.items@, fails, k as int);
                        }
                        return Err(e);
                    },
                },
                ImplItemSyntax::Other => {
                    proof {
                        lemma_first_index_at(i.items@, fails, k as int);
                    }
                    return Err(ExportError::UnsupportedImplItem);
                },
            }
            k += 1;
        }
        proof {
            lemma_first_index_none(i.items@, fails);
        }
        match name_of_type(&i.self_ty) {
            Ok(self_name) => Ok(ImplMetadata { module: module.to_owned(), self_name, fn_metadata }),
            Err(e) => Err(e),
        }
    }

    /// The names of the files that hold the metadata, one for each function:
    /// `mod.`, the module, `.impl.`, the name of the type, `.fn.`, the name of
    /// the function, `.json`.
    pub fn file_names(&self) -> (r: Vec<String>)
        ensures
            r@.len() == self.fn_metadata@.len(),
            forall|k: int|
                0 <= k < r@.len() ==> (#[trigger] r@[k])@ == dotted(
                    dotted(dotted("mod"@, self.module@, "impl"@), self.self_name@, "fn"@),
                    self.fn_metadata@[k].name@,
                    "json"@,
                ),
    {
        let mut out: Vec<String> = Vec::new();
        let mut k: usize = 0;
        while k < self.fn_metadata.len()
            invariant
                k <= self.fn_metadata@.len(),
                out@.len() == k,
                forall|j: int|
                    0 <= j < k ==> (#[trigger] out@[j])@ == dotted(
                        dotted(dotted("mod"@, self.module@, "impl"@), self.self_name@, "fn"@),
                        self.fn_metadata@[j].name@,
                        "json"@,
                    ),
            decreases self.fn_metadata@.len() - k,
        {
            let front = dot("mod", self.module.as_str(), "impl");
            let middle = dot(front.as_str(), self.self_name.as_str(), "fn");
            out.push(dot(middle.as_str(), self.fn_metadata[k].name.as_str(), "json"));
            k += 1;
        }
        out
    }
}

/// The record of metadata that an annotated item of the module `mod_path`
/// leaves behind. Functions, structs and enums leave one; `impl` blocks do not
/// yet, and nothing else ever does.
pub fn item_metadata(item: &ItemSyntax, mod_path: &str) -> (r: Result<Metadata, ExportError>)
    ensures
        match item {
            ItemSyntax::Enum(e) => r matches Ok(Metadata::Enum(meta)) && meta.name@ == e.name@
                && meta.variants@.len() == e.variants@.len() && forall|i: int|
                0 <= i < meta.variants@.len() ==> (#[trigger] meta.variants@[i]).name@
                    == e.variants@[i]@,
            ItemSyntax::Fn(f) => match output_name_of(f.output) {
                Ok(output) => r matches Ok(Metadata::Func(meta)) && meta.module@ == mod_path@
                    && meta.name@ == f.name@ && meta.inputs@.len() == f.inputs && optional_name(
                    meta.output,
                ) == output,
                Err(e) => r == Err::<Metadata, ExportError>(e),
            },
            ItemSyntax::Impl(_) => r == Err::<Metadata, ExportError>(
                ExportError::ImplNotSupported,
            ),
            ItemSyntax::Struct(s) => r matches Ok(Metadata::Record(meta)) && meta.name@
                == s.name@,
            ItemSyntax::Other => r == Err::<Metadata, ExportError>(ExportError::UnsupportedItem),
        },
{
    match item {
        ItemSyntax::Enum(e) => Ok(Metadata::Enum(EnumMetadata::new(e))),
        ItemSyntax::Fn(f) => match FnMetadata::new(f, mod_path) {
            Ok(meta) => Ok(Metadata::Func(meta)),
            Err(e) => Err(e),
        },
        ItemSyntax::Impl(_) => Err(ExportError::ImplNotSupported),
        ItemSyntax::Struct(s) => Ok(Metadata::Record(StructMetadata::new(s))),
        ItemSyntax::Other => Err(ExportError::UnsupportedItem),
    }
}

} // verus!
