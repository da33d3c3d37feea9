//! The declarations of an interface as they are written: what a reader of the
//! interface description hands over, before any name is resolved.

use vstd::prelude::*;
use crate::attributes::RawAttribute;
use crate::literal::Literal;
use crate::universe::TypeExpr;

verus! {

/// An argument of an operation or a constructor, or a field of a variant of a
/// tagged union.
#[derive(Debug, PartialEq, Eq)]
pub struct ArgumentNode {
    pub name: String,
    pub type_: TypeExpr,
    pub optional: bool,
    pub default: Option<Literal>,
    pub attributes: Option<Vec<RawAttribute>>,
}

/// An operation: a function of a namespace, a method of an interface or of a
/// callback interface, or a variant of a tagged union.
#[derive(Debug, PartialEq, Eq)]
pub struct OperationNode {
    pub name: String,
    pub arguments: Vec<ArgumentNode>,
    pub return_type: Option<TypeExpr>,
    pub attributes: Option<Vec<RawAttribute>>,
}

/// A constructor of an interface.
#[derive(Debug, PartialEq, Eq)]
pub struct ConstructorNode {
    pub arguments: Vec<ArgumentNode>,
    pub attributes: Option<Vec<RawAttribute>>,
}

/// A field of a dictionary.
#[derive(Debug, PartialEq, Eq)]
pub struct FieldNode {
    pub name: String,
    pub type_: TypeExpr,
    pub required: bool,
    pub default: Option<Literal>,
}

/// A declaration of an interface description.
#[derive(Debug, PartialEq, Eq)]
pub enum Definition {
    /// `namespace name { functions }`
    Namespace { name: String, functions: Vec<OperationNode> },
    /// `dictionary name { fields }`: a record.
    Dictionary { name: String, fields: Vec<FieldNode> },
    /// `enum name { variants }`: an enum without fields, or with `[Error]` an
    /// error family.
    Enum { name: String, attributes: Option<Vec<RawAttribute>>, variants: Vec<String> },
    /// `interface name { members }`: an object; with `[Enum]` or `[Error]` a
    /// tagged union, whose members are its variants and their arguments its fields.
    Interface {
        name: String,
        attributes: Option<Vec<RawAttribute>>,
        constructors: Vec<ConstructorNode>,
        members: Vec<OperationNode>,
    },
    /// `callback interface name { methods }`
    CallbackInterface { name: String, methods: Vec<OperationNode> },
    /// `typedef type name`: with `[External=crate]` a type of another crate, with
    /// `[Custom]` a custom type over `type_`.
    Typedef { name: String, attributes: Option<Vec<RawAttribute>>, type_: TypeExpr },
}

} // verus!
