//! Literal values, as they stand for the default of a field or an argument.

use vstd::prelude::*;
use crate::types::{Type, TypeModel};

verus! {

/// The radix in which an integer literal was written. It is kept so that
/// generated code can show the number as its author wrote it.
#[derive(Debug, Clone, Copy, PartialEq, Eq, Hash, Structural)]
pub enum Radix {
    Decimal,
    Octal,
    Hexadecimal,
}

impl Radix {
    /// The base of the radix.
    pub open spec fn base_of(self) -> u8 {
        match self {
            Radix::Decimal => 10u8,
            Radix::Octal => 8u8,
            Radix::Hexadecimal => 16u8,
        }
    }

    /// The base of the radix: 10, 8 or 16.
    pub fn base(&self) -> (r: u8)
        ensures
            r == self.base_of(),
    {
        match self {
            Radix::Decimal => 10,
            Radix::Octal => 8,
            Radix::Hexadecimal => 16,
        }
    }
}

/// What a [`Literal`] stands for.
pub enum LiteralModel {
    Boolean(bool),
    String(Seq<char>),
    UInt(u64, Radix, TypeModel),
    Int(i64, Radix, TypeModel),
    Float(Seq<char>, TypeModel),
    Enum(Seq<char>, TypeModel),
    EmptySequence,
    EmptyMap,
    Null,
}

/// A typed literal value.
#[derive(Debug, PartialEq, Eq, Hash)]
pub enum Literal {
    Boolean(bool),
    String(String),
    /// An unsigned integer, held in the widest representation, with the type it is meant for.
    UInt(u64, Radix, Type),
    /// A signed integer, held in the widest representation, with the type it is meant for.
    Int(i64, Radix, Type),
    /// A floating-point number, kept as it was written, with the type it is meant for.
    Float(String, Type),
    /// The name of an enum variant, with the type of the enum.
    Enum(String, Type),
    EmptySequence,
    EmptyMap,
    Null,
}

impl View for Literal {
    type V = LiteralModel;

    open spec fn view(&self) -> LiteralModel {
        match self {
            Literal::Boolean(b) => LiteralModel::Boolean(*b),
            Literal::String(s) => LiteralModel::String(s@),
            Literal::UInt(n, r, t) => LiteralModel::UInt(*n, *r, t@),
            Literal::Int(n, r, t) => LiteralModel::Int(*n, *r, t@),
            Literal::Float(s, t) => LiteralModel::Float(s@, t@),
            Literal::Enum(s, t) => LiteralModel::Enum(s@, t@),
            Literal::EmptySequence => LiteralModel::EmptySequence,
            Literal::EmptyMap => LiteralModel::EmptyMap,
            Literal::Null => LiteralModel::Null,
        }
    }
}

impl Clone for Literal {
    fn clone(&self) -> (r: Literal)
        ensures
            r@ == self@,
    {
        match self {
            Literal::Boolean(b) => Literal::Boolean(*b),
            Literal::String(s) => Literal::String(s.clone()),
            Literal::UInt(n, r, t) => Literal::UInt(*n, *r, t.clone()),
            Literal::Int(n, r, t) => Literal::Int(*n, *r, t.clone()),
            Literal::Float(s, t) => Literal::Float(s.clone(), t.clone()),
            Literal::Enum(s, t) => Literal::Enum(s.clone(), t.clone()),
            Literal::EmptySequence => Literal::EmptySequence,
            Literal::EmptyMap => Literal::EmptyMap,
            Literal::Null => Literal::Null,
        }
    }
}

/// What an optional literal stands for.
pub open spec fn default_model(d: Option<Literal>) -> Option<LiteralModel> {
    match d {
        Some(l) => Some(l@),
        None => None,
    }
}

/// A copy of an optional literal.
pub(crate) fn clone_default(d: &Option<Literal>) -> (r: Option<Literal>)
    ensures
        default_model(r) == default_model(*d),
{
    match d {
        Some(l) => Some(l.clone()),
        None => None,
    }
}

} // verus!
