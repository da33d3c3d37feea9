//! The ways in which building an interface can fail.

use vstd::prelude::*;

verus! {

/// A global invariant that an interface breaks.
#[derive(Debug, PartialEq, Eq)]
pub enum Inconsistency {
    /// No namespace was declared, or its name is empty.
    MissingNamespace,
    /// An enum variant bears the name of a declared type.
    ShadowedTypeName(String),
}

/// Why a build was abandoned. Every failure is final: nothing is retried, and no
/// partial interface is handed out.
#[derive(Debug, PartialEq, Eq)]
pub enum InterfaceError {
    /// A name was declared a second time, in conflict with the first.
    DuplicateDefinition(String),
    /// A type expression names a type that nothing declares.
    UnknownType(String),
    /// An attribute that the kind of declaration does not take.
    UnsupportedAttribute(String),
    /// The finished interface breaks a global invariant.
    ConsistencyViolation(Inconsistency),
    /// A type has no low-level counterpart. Every type has one at present, so
    /// no build ends this way; the failure stands ready for a type that has none.
    InternalMappingError(String),
}

/// What an [`Inconsistency`] stands for.
pub enum InconsistencyModel {
    MissingNamespace,
    ShadowedTypeName(Seq<char>),
}

/// What an [`InterfaceError`] stands for.
pub enum Failure {
    DuplicateDefinition(Seq<char>),
    UnknownType(Seq<char>),
    UnsupportedAttribute(Seq<char>),
    ConsistencyViolation(InconsistencyModel),
    InternalMappingError(Seq<char>),
}

impl View for Inconsistency {
    type V = InconsistencyModel;

    open spec fn view(&self) -> InconsistencyModel {
        match self {
            Inconsistency::MissingNamespace => InconsistencyModel::MissingNamespace,
            Inconsistency::ShadowedTypeName(n) => InconsistencyModel::ShadowedTypeName(n@),
        }
    }
}

impl View for InterfaceError {
    type V = Failure;

    open spec fn view(&self) -> Failure {
        match self {
            InterfaceError::DuplicateDefinition(n) => Failure::DuplicateDefinition(n@),
            InterfaceError::UnknownType(n) => Failure::UnknownType(n@),
            InterfaceError::UnsupportedAttribute(n) => Failure::UnsupportedAttribute(n@),
            InterfaceError::ConsistencyViolation(i) => Failure::ConsistencyViolation(i@),
            InterfaceError::InternalMappingError(n) => Failure::InternalMappingError(n@),
        }
    }
}

impl InterfaceError {
    /// The name that the failure is about; empty where no name is at fault.
    pub fn offending_name(&self) -> (r: &str)
        ensures
            r@ == self@.offending_name(),
    {
        match self {
            InterfaceError::DuplicateDefinition(n) => n.as_str(),
            InterfaceError::UnknownType(n) => n.as_str(),
            InterfaceError::UnsupportedAttribute(n) => n.as_str(),
            InterfaceError::ConsistencyViolation(Inconsistency::ShadowedTypeName(n)) => n.as_str(),
            InterfaceError::ConsistencyViolation(Inconsistency::MissingNamespace) => "",
            InterfaceError::InternalMappingError(n) => n.as_str(),
        }
    }
}

impl Failure {
    /// The name that the failure is about; empty where no name is at fault.
    pub open spec fn offending_name(self) -> Seq<char> {
        match self {
            Failure::DuplicateDefinition(n) => n,
            Failure::UnknownType(n) => n,
            Failure::UnsupportedAttribute(n) => n,
            Failure::ConsistencyViolation(InconsistencyModel::ShadowedTypeName(n)) => n,
            Failure::ConsistencyViolation(InconsistencyModel::MissingNamespace) => ""@,
            Failure::InternalMappingError(n) => n,
        }
    }
}

} // verus!
