//! Error families: enums whose values are thrown rather than returned.

use vstd::prelude::*;
use crate::enum_::{Enum, EnumModel, Variant};
use crate::types::{models_of, HoldsTypes, Type, TypeModel};

verus! {

/// What an [`Error`] stands for.
pub struct ErrorModel {
    /// The enum that lists the errors of the family; the family bears its name.
    pub enum_: EnumModel,
}

impl ErrorModel {
    /// The name of the family.
    pub open spec fn name(self) -> Seq<char> {
        self.enum_.name
    }

    /// The types that the family holds, variant after variant.
    pub open spec fn types(self) -> Seq<TypeModel> {
        self.enum_.types()
    }
}

/// An error family: in structure an enum, marked as a family of errors.
#[derive(Debug, PartialEq, Eq)]
pub struct Error {
    pub(crate) enum_: Enum,
}

impl View for Error {
    type V = ErrorModel;

    open(crate) spec fn view(&self) -> ErrorModel {
        ErrorModel { enum_: self.enum_@ }
    }
}

impl Clone for Error {
    fn clone(&self) -> (r: Error)
        ensures
            r@ == self@,
    {
        Error { enum_: self.enum_.clone() }
    }
}

impl HoldsTypes for Error {
    open spec fn held(&self) -> Seq<TypeModel> {
        self@.types()
    }

    fn held_types(&self) -> (r: Vec<&Type>) {
        self.iter_types()
    }
}

impl Error {
    /// The family that an enum describes.
    pub fn from_enum(enum_: Enum) -> (r: Error)
        ensures
            r@.enum_ == enum_@,
    {
        Error { enum_ }
    }

    pub fn name(&self) -> (r: &str)
        ensures
            r@ == self@.name(),
    {
        self.enum_.name()
    }

    /// The type that names this family.
    pub fn type_(&self) -> (r: Type)
        ensures
            r@ == TypeModel::Error(self@.name()),
    {
        Type::Error(self.enum_.name.clone())
    }

    /// The enum that lists the errors of the family.
    pub fn wrapped_enum(&self) -> (r: &Enum)
        ensures
            r@ == self@.enum_,
    {
        &self.enum_
    }

    /// The errors of the family, in the order in which they were declared.
    pub fn variants(&self) -> (r: Vec<&Variant>)
        ensures
            r@.len() == self@.enum_.variants.len(),
            forall|i: int| 0 <= i < r@.len() ==> (#[trigger] r@[i])@ == self@.enum_.variants[i],
    {
        self.enum_.variants()
    }

    /// Whether no error of the family carries a field.
    pub fn is_flat(&self) -> (r: bool)
        ensures
            r == self@.enum_.is_flat(),
    {
        self.enum_.is_flat()
    }

    /// The types that the family holds, variant after variant.
    pub fn iter_types(&self) -> (r: Vec<&Type>)
        ensures
            models_of(r@) == self@.types(),
    {
        self.enum_.iter_types()
    }
}

} // verus!
