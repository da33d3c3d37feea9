//! The low-level view of an exported operation: a symbol, its arguments and its
//! result, in the few types that cross the boundary as they are.

use vstd::prelude::*;
use crate::types::{Type, TypeModel};

verus! {

/// A type as it crosses the boundary.
#[derive(Debug, Clone, Copy, PartialEq, Eq, Hash, Structural)]
pub enum FFIType {
    UInt8,
    Int8,
    UInt16,
    Int16,
    UInt32,
    Int32,
    UInt64,
    Int64,
    Float32,
    Float64,
    /// An opaque handle to an object.
    RustArcPtr,
    /// The growable byte buffer that carries every serialized value.
    RustBuffer,
    /// Bytes that the foreign side owns.
    ForeignBytes,
    /// The slot of a function pointer that the foreign side registers.
    ForeignCallback,
}

/// The low-level type that carries a value of type `t`. Scalars go as they are,
/// a boolean as a signed byte; an object goes as a handle, a callback interface as
/// a function-pointer slot; a custom type goes as the type it is built on; every
/// other value is serialized into the byte buffer.
pub open spec fn lower(t: TypeModel) -> FFIType
    decreases t,
{
    match t {
        TypeModel::UInt8 => FFIType::UInt8,
        TypeModel::Int8 => FFIType::Int8,
        TypeModel::UInt16 => FFIType::UInt16,
        TypeModel::Int16 => FFIType::Int16,
        TypeModel::UInt32 => FFIType::UInt32,
        TypeModel::Int32 => FFIType::Int32,
        TypeModel::UInt64 => FFIType::UInt64,
        TypeModel::Int64 => FFIType::Int64,
        TypeModel::Float32 => FFIType::Float32,
        TypeModel::Float64 => FFIType::Float64,
        TypeModel::Boolean => FFIType::Int8,
        TypeModel::Object(_) => FFIType::RustArcPtr,
        TypeModel::CallbackInterface(_) => FFIType::ForeignCallback,
        TypeModel::Custom { name, builtin } => lower(*builtin),
        _ => FFIType::RustBuffer,
    }
}

impl FFIType {
    /// The low-level type that carries a value of type `t`.
    pub fn from_type(t: &Type) -> (r: FFIType)
        ensures
            r == lower(t@),
        decreases t,
    {
        match t {
            Type::UInt8 => FFIType::UInt8,
            Type::Int8 => FFIType::Int8,
            Type::UInt16 => FFIType::UInt16,
            Type::Int16 => FFIType::Int16,
            Type::UInt32 => FFIType::UInt32,
            Type::Int32 => FFIType::Int32,
            Type::UInt64 => FFIType::UInt64,
            Type::Int64 => FFIType::Int64,
            Type::Float32 => FFIType::Float32,
            Type::Float64 => FFIType::Float64,
            Type::Boolean => FFIType::Int8,
            Type::Object(_) => FFIType::RustArcPtr,
            Type::CallbackInterface(_) => FFIType::ForeignCallback,
            Type::Custom { name, builtin } => FFIType::from_type(builtin),
            _ => FFIType::RustBuffer,
        }
    }
}

/// What an [`FFIArgument`] stands for.
pub struct FFIArgumentModel {
    pub name: Seq<char>,
    pub type_: FFIType,
}

/// What an [`FFIFunction`] stands for.
pub struct FFIFunctionModel {
    pub name: Seq<char>,
    pub arguments: Seq<FFIArgumentModel>,
    pub return_type: Option<FFIType>,
}

/// A named argument of a low-level function.
#[derive(Debug, PartialEq, Eq, Hash)]
pub struct FFIArgument {
    pub(crate) name: String,
    pub(crate) type_: FFIType,
}

impl View for FFIArgument {
    type V = FFIArgumentModel;

    open(crate) spec fn view(&self) -> FFIArgumentModel {
        FFIArgumentModel { name: self.name@, type_: self.type_ }
    }
}

impl Clone for FFIArgument {
    fn clone(&self) -> (r: FFIArgument)
        ensures
            r@ == self@,
    {
        FFIArgument { name: self.name.clone(), type_: self.type_ }
    }
}

impl FFIArgument {
    /// An argument with the given name and type.
    pub fn new(name: &str, type_: FFIType) -> (r: FFIArgument)
        ensures
            r@ == (FFIArgumentModel { name: name@, type_ }),
    {
        FFIArgument { name: name.to_owned(), type_ }
    }

    pub fn name(&self) -> (r: &str)
        ensures
            r@ == self@.name,
    {
        self.name.as_str()
    }

    pub fn type_(&self) -> (r: FFIType)
        ensures
            r == self@.type_,
    {
        self.type_
    }
}

/// The views of a list of arguments.
pub open spec fn ffi_argument_models(args: Seq<FFIArgument>) -> Seq<FFIArgumentModel> {
    args.map_values(|a: FFIArgument| a@)
}

/// A low-level function: the symbol that one side exports and the other calls.
#[derive(Debug, PartialEq, Eq, Hash)]
pub struct FFIFunction {
    pub(crate) name: String,
    pub(crate) arguments: Vec<FFIArgument>,
    pub(crate) return_type: Option<FFIType>,
}

impl View for FFIFunction {
    type V = FFIFunctionModel;

    open(crate) spec fn view(&self) -> FFIFunctionModel {
        FFIFunctionModel {
            name: self.name@,
            arguments: ffi_argument_models(self.arguments@),
            return_type: self.return_type,
        }
    }
}

impl FFIFunctionModel {
    /// The function before anything was derived: no name, no arguments, no result.
    pub open spec fn empty() -> FFIFunctionModel {
        FFIFunctionModel { name: Seq::empty(), arguments: Seq::empty(), return_type: None }
    }
}

/// A copy of a list of arguments.
pub(crate) fn clone_ffi_arguments(args: &Vec<FFIArgument>) -> (r: Vec<FFIArgument>)
    ensures
        ffi_argument_models(r@) == ffi_argument_models(args@),
{
    let mut out: Vec<FFIArgument> = Vec::new();
    let mut i: usize = 0;
    while i < args.len()
        invariant
            i <= args@.len(),
            out@.len() == i,
            forall|j: int| 0 <= j < i ==> out@[j]@ == args@[j]@,
        decreases args@.len() - i,
    {
        out.push(args[i].clone());
        i += 1;
    }
    assert(ffi_argument_models(out@) =~= ffi_argument_models(args@));
    out
}

impl Clone for FFIFunction {
    fn clone(&self) -> (r: FFIFunction)
        ensures
            r@ == self@,
    {
        FFIFunction {
            name: self.name.clone(),
            arguments: clone_ffi_arguments(&self.arguments),
            return_type: self.return_type,
        }
    }
}

impl Default for FFIFunction {
    fn default() -> (r: FFIFunction)
        ensures
            r@ == FFIFunctionModel::empty(),
    {
        let r = FFIFunction { name: String::new(), arguments: Vec::new(), return_type: None };
        assert(r@.arguments =~= Seq::empty());
        r
    }
}

impl FFIFunction {
    pub fn name(&self) -> (r: &str)
        ensures
            r@ == self@.name,
    {
        self.name.as_str()
    }

    pub fn arguments(&self) -> (r: Vec<&FFIArgument>)
        ensures
            r@.len() == self@.arguments.len(),
            forall|i: int| 0 <= i < r@.len() ==> (#[trigger] r@[i])@ == self@.arguments[i],
    {
        let mut out: Vec<&FFIArgument> = Vec::new();
        let mut i: usize = 0;
        while i < self.arguments.len()
            invariant
                i <= self.arguments@.len(),
                out@.len() == i,
                forall|j: int| 0 <= j < i ==> out@[j] == &self.arguments@[j],
            decreases self.arguments@.len() - i,
        {
            out.push(&self.arguments[i]);
            i += 1;
        }
        out
    }

    pub fn return_type(&self) -> (r: Option<&FFIType>)
        ensures
            r is Some <==> self@.return_type is Some,
            r matches Some(t) ==> Some(*t) == self@.return_type,
    {
        self.return_type.as_ref()
    }
}

} // verus!
