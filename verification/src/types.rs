//! The types that can cross the boundary, and the registry that resolves their names.

use vstd::prelude::*;
use crate::fold::{flat_map, lemma_flat_map_ends, lemma_flat_map_step};
use crate::text::{same_name, str_eq};

verus! {

/// What a [`Type`] stands for: the same shape, with every name as a sequence of characters.
pub enum TypeModel {
    UInt8,
    Int8,
    UInt16,
    Int16,
    UInt32,
    Int32,
    UInt64,
    Int64,
    Float32,
    Float64,
    Boolean,
    String,
    Bytes,
    Object(Seq<char>),
    Record(Seq<char>),
    Enum(Seq<char>),
    Error(Seq<char>),
    CallbackInterface(Seq<char>),
    Optional(Box<TypeModel>),
    Sequence(Box<TypeModel>),
    Mapping(Box<TypeModel>, Box<TypeModel>),
    External { name: Seq<char>, crate_name: Seq<char> },
    Custom { name: Seq<char>, builtin: Box<TypeModel> },
}

/// A type of the interface. Named user types are identified by their name alone.
#[derive(Debug, PartialEq, Eq, Hash)]
pub enum Type {
    UInt8,
    Int8,
    UInt16,
    Int16,
    UInt32,
    Int32,
    UInt64,
    Int64,
    Float32,
    Float64,
    Boolean,
    String,
    Bytes,
    Object(String),
    Record(String),
    Enum(String),
    Error(String),
    CallbackInterface(String),
    Optional(Box<Type>),
    Sequence(Box<Type>),
    Mapping(Box<Type>, Box<Type>),
    External { name: String, crate_name: String },
    Custom { name: String, builtin: Box<Type> },
}

impl View for Type {
    type V = TypeModel;

    open spec fn view(&self) -> TypeModel {
        self.model()
    }
}

impl Clone for Type {
    fn clone(&self) -> (r: Type)
        ensures
            r@ == self@,
    {
        self.duplicate()
    }
}

impl Type {
    /// What this type stands for.
    pub open spec fn model(&self) -> TypeModel
        decreases self,
    {
        match self {
            Type::UInt8 => TypeModel::UInt8,
            Type::Int8 => TypeModel::Int8,
            Type::UInt16 => TypeModel::UInt16,
            Type::Int16 => TypeModel::Int16,
            Type::UInt32 => TypeModel::UInt32,
            Type::Int32 => TypeModel::Int32,
            Type::UInt64 => TypeModel::UInt64,
            Type::Int64 => TypeModel::Int64,
            Type::Float32 => TypeModel::Float32,
            Type::Float64 => TypeModel::Float64,
            Type::Boolean => TypeModel::Boolean,
            Type::String => TypeModel::String,
            Type::Bytes => TypeModel::Bytes,
            Type::Object(n) => TypeModel::Object(n@),
            Type::Record(n) => TypeModel::Record(n@),
            Type::Enum(n) => TypeModel::Enum(n@),
            Type::Error(n) => TypeModel::Error(n@),
            Type::CallbackInterface(n) => TypeModel::CallbackInterface(n@),
            Type::Optional(t) => TypeModel::Optional(Box::new(t.model())),
            Type::Sequence(t) => TypeModel::Sequence(Box::new(t.model())),
            Type::Mapping(k, v) => TypeModel::Mapping(Box::new(k.model()), Box::new(v.model())),
            Type::External { name, crate_name } => TypeModel::External {
                name: name@,
                crate_name: crate_name@,
            },
            Type::Custom { name, builtin } => TypeModel::Custom {
                name: name@,
                builtin: Box::new(builtin.model()),
            },
        }
    }

    /// Whether two types are the same type.
    pub fn same(&self, other: &Type) -> (r: bool)
        ensures
            r == (self@ == other@),
        decreases self,
    {
        match (self, other) {
            (Type::UInt8, Type::UInt8) => true,
            (Type::Int8, Type::Int8) => true,
            (Type::UInt16, Type::UInt16) => true,
            (Type::Int16, Type::Int16) => true,
            (Type::UInt32, Type::UInt32) => true,
            (Type::Int32, Type::Int32) => true,
            (Type::UInt64, Type::UInt64) => true,
            (Type::Int64, Type::Int64) => true,
            (Type::Float32, Type::Float32) => true,
            (Type::Float64, Type::Float64) => true,
            (Type::Boolean, Type::Boolean) => true,
            (Type::String, Type::String) => true,
            (Type::Bytes, Type::Bytes) => true,
            (Type::Object(a), Type::Object(b)) => same_name(a, b.as_str()),
            (Type::Record(a), Type::Record(b)) => same_name(a, b.as_str()),
            (Type::Enum(a), Type::Enum(b)) => same_name(a, b.as_str()),
            (Type::Error(a), Type::Error(b)) => same_name(a, b.as_str()),
            (Type::CallbackInterface(a), Type::CallbackInterface(b)) => same_name(a, b.as_str()),
            (Type::Optional(a), Type::Optional(b)) => a.same(b),
            (Type::Sequence(a), Type::Sequence(b)) => a.same(b),
            (Type::Mapping(ak, av), Type::Mapping(bk, bv)) => ak.same(bk) && av.same(bv),
            (
                Type::External { name: an, crate_name: ac },
                Type::External { name: bn, crate_name: bc },
            ) => same_name(an, bn.as_str()) && same_name(ac, bc.as_str()),
            (
                Type::Custom { name: an, builtin: ab },
                Type::Custom { name: bn, builtin: bb },
            ) => same_name(an, bn.as_str()) && ab.same(bb),
            _ => false,
        }
    }

    /// A copy of this type.
    pub fn duplicate(&self) -> (r: Type)
        ensures
            r@ == self@,
        decreases self,
    {
        match self {
            Type::UInt8 => Type::UInt8,
            Type::Int8 => Type::Int8,
            Type::UInt16 => Type::UInt16,
            Type::Int16 => Type::Int16,
            Type::UInt32 => Type::UInt32,
            Type::Int32 => Type::Int32,
            Type::UInt64 => Type::UInt64,
            Type::Int64 => Type::Int64,
            Type::Float32 => Type::Float32,
            Type::Float64 => Type::Float64,
            Type::Boolean => Type::Boolean,
            Type::String => Type::String,
            Type::Bytes => Type::Bytes,
            Type::Object(n) => Type::Object(n.clone()),
            Type::Record(n) => Type::Record(n.clone()),
            Type::Enum(n) => Type::Enum(n.clone()),
            Type::Error(n) => Type::Error(n.clone()),
            Type::CallbackInterface(n) => Type::CallbackInterface(n.clone()),
            Type::Optional(t) => Type::Optional(Box::new(t.duplicate())),
            Type::Sequence(t) => Type::Sequence(Box::new(t.duplicate())),
            Type::Mapping(k, v) => Type::Mapping(Box::new(k.duplicate()), Box::new(v.duplicate())),
            Type::External { name, crate_name } => Type::External {
                name: name.clone(),
                crate_name: crate_name.clone(),
            },
            Type::Custom { name, builtin } => Type::Custom {
                name: name.clone(),
                builtin: Box::new(builtin.duplicate()),
            },
        }
    }
}


impl TypeModel {
    /// The types that this type holds: itself first, then what its structural
    /// components hold, from left to right.
    pub open spec fn types(self) -> Seq<TypeModel>
        decreases self,
    {
        match self {
            TypeModel::Optional(t) => seq![self] + t.types(),
            TypeModel::Sequence(t) => seq![self] + t.types(),
            TypeModel::Mapping(k, v) => seq![self] + k.types() + v.types(),
            _ => seq![self],
        }
    }

    /// The name of a named user type.
    pub open spec fn declared_name(self) -> Option<Seq<char>> {
        match self {
            TypeModel::Object(n) => Some(n),
            TypeModel::Record(n) => Some(n),
            TypeModel::Enum(n) => Some(n),
            TypeModel::Error(n) => Some(n),
            TypeModel::CallbackInterface(n) => Some(n),
            _ => None,
        }
    }
}

/// The views of the types behind a list of references.
pub open spec fn models_of(refs: Seq<&Type>) -> Seq<TypeModel> {
    refs.map_values(|t: &Type| t@)
}

/// The type that a built-in name stands for.
pub open spec fn builtin_type(name: Seq<char>) -> Option<TypeModel> {
    if name == "boolean"@ {
        Some(TypeModel::Boolean)
    } else if name == "string"@ {
        Some(TypeModel::String)
    } else if name == "bytes"@ {
        Some(TypeModel::Bytes)
    } else if name == "u8"@ {
        Some(TypeModel::UInt8)
    } else if name == "i8"@ {
        Some(TypeModel::Int8)
    } else if name == "u16"@ {
        Some(TypeModel::UInt16)
    } else if name == "i16"@ {
        Some(TypeModel::Int16)
    } else if name == "u32"@ {
        Some(TypeModel::UInt32)
    } else if name == "i32"@ {
        Some(TypeModel::Int32)
    } else if name == "u64"@ {
        Some(TypeModel::UInt64)
    } else if name == "i64"@ {
        Some(TypeModel::Int64)
    } else if name == "f32"@ {
        Some(TypeModel::Float32)
    } else if name == "f64"@ {
        Some(TypeModel::Float64)
    } else {
        None
    }
}

/// Resolves a built-in name.
pub fn resolve_builtin_type(name: &str) -> (r: Option<Type>)
    ensures
        r is Some <==> builtin_type(name@) is Some,
        r matches Some(t) ==> Some(t@) == builtin_type(name@),
{
    if str_eq(name, "boolean") {
        Some(Type::Boolean)
    } else if str_eq(name, "string") {
        Some(Type::String)
    } else if str_eq(name, "bytes") {
        Some(Type::Bytes)
    } else if str_eq(name, "u8") {
        Some(Type::UInt8)
    } else if str_eq(name, "i8") {
        Some(Type::Int8)
    } else if str_eq(name, "u16") {
        Some(Type::UInt16)
    } else if str_eq(name, "i16") {
        Some(Type::Int16)
    } else if str_eq(name, "u32") {
        Some(Type::UInt32)
    } else if str_eq(name, "i32") {
        Some(Type::Int32)
    } else if str_eq(name, "u64") {
        Some(Type::UInt64)
    } else if str_eq(name, "i64") {
        Some(Type::Int64)
    } else if str_eq(name, "f32") {
        Some(Type::Float32)
    } else if str_eq(name, "f64") {
        Some(Type::Float64)
    } else {
        None
    }
}

impl Type {
    /// The types that this type holds: itself first, then what its structural
    /// components hold, from left to right.
    pub fn iter_types(&self) -> (r: Vec<&Type>)
        ensures
            models_of(r@) == self@.types(),
        decreases self,
    {
        let mut out: Vec<&Type> = Vec::new();
        out.push(self);
        match self {
            Type::Optional(t) | Type::Sequence(t) => {
                let mut inner = t.iter_types();
                out.append(&mut inner);
            },
            Type::Mapping(k, v) => {
                let mut keys = k.iter_types();
                let mut values = v.iter_types();
                out.append(&mut keys);
                out.append(&mut values);
            },
            _ => {},
        }
        assert(models_of(out@) =~= self@.types());
        out
    }
}


/// A part of an interface that holds types.
pub trait HoldsTypes {
    /// The types that the part holds, in order.
    spec fn held(&self) -> Seq<TypeModel>;

    /// The types that the part holds, in order.
    fn held_types(&self) -> (r: Vec<&Type>)
        ensures
            models_of(r@) == self.held(),
    ;
}

/// The types that the parts of a list hold, part after part.
pub fn collect_types<T: HoldsTypes>(parts: &Vec<T>) -> (r: Vec<&Type>)
    ensures
        models_of(r@) == flat_map(parts@, |p: T| p.held()),
{
    let ghost each = |p: T| p.held();
    let mut out: Vec<&Type> = Vec::new();
    let mut i: usize = 0;
    proof {
        lemma_flat_map_ends(parts@, each);
        assert(models_of(out@) =~= Seq::empty());
    }
    while i < parts.len()
        invariant
            i <= parts@.len(),
            each == (|p: T| p.held()),
            models_of(out@) == flat_map(parts@.take(i as int), each),
        decreases parts@.len() - i,
    {
        let ghost before = models_of(out@);
        let mut more = parts[i].held_types();
        let ghost added = models_of(more@);
        out.append(&mut more);
        proof {
            lemma_flat_map_step(parts@, each, i as int);
            assert(models_of(out@) =~= before + added);
        }
        i += 1;
    }
    proof {
        lemma_flat_map_ends(parts@, each);
    }
    out
}

impl HoldsTypes for Type {
    open spec fn held(&self) -> Seq<TypeModel> {
        self@.types()
    }

    fn held_types(&self) -> (r: Vec<&Type>) {
        self.iter_types()
    }
}


/// What an optional type stands for.
pub open spec fn optional_model(t: Option<Type>) -> Option<TypeModel> {
    match t {
        Some(t) => Some(t@),
        None => None,
    }
}

/// A copy of an optional type.
pub(crate) fn clone_optional(t: &Option<Type>) -> (r: Option<Type>)
    ensures
        optional_model(r) == optional_model(*t),
{
    match t {
        Some(t) => Some(t.clone()),
        None => None,
    }
}

/// The types that an optional type holds.
pub open spec fn optional_types(t: Option<TypeModel>) -> Seq<TypeModel> {
    match t {
        Some(t) => t.types(),
        None => Seq::empty(),
    }
}

} // verus!
