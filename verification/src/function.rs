//! Free functions, and the arguments that functions, constructors and methods take.

use vstd::prelude::*;
use crate::attributes::{throws_of, AttributeModel, FunctionAttributes};
use crate::failure::InterfaceError;
use crate::ffi::{lower, FFIArgument, FFIArgumentModel, FFIFunction, FFIFunctionModel, FFIType};
use crate::fold::{flat_map, lemma_flat_map_views, refs};
use crate::literal::{clone_default, default_model, Literal, LiteralModel};
use crate::text::{join, joined};
use crate::types::{
    clone_optional, collect_types, models_of, optional_model, HoldsTypes, Type, TypeModel,
};

verus! {

/// What an [`Argument`] stands for.
pub struct ArgumentModel {
    pub name: Seq<char>,
    pub type_: TypeModel,
    pub by_ref: bool,
    pub optional: bool,
    pub default: Option<LiteralModel>,
}

impl ArgumentModel {
    /// The argument as it crosses the boundary.
    pub open spec fn lowered(self) -> FFIArgumentModel {
        FFIArgumentModel { name: self.name, type_: lower(self.type_) }
    }
}

/// The arguments as they cross the boundary.
pub open spec fn lowered(args: Seq<ArgumentModel>) -> Seq<FFIArgumentModel> {
    args.map_values(|a: ArgumentModel| a.lowered())
}

/// The low-level type of an optional result.
pub open spec fn lower_result(t: Option<TypeModel>) -> Option<FFIType> {
    match t {
        Some(t) => Some(lower(t)),
        None => None,
    }
}

/// The types that a list of arguments holds, argument after argument.
pub open spec fn argument_types(args: Seq<ArgumentModel>) -> Seq<TypeModel> {
    flat_map(args, |a: ArgumentModel| a.type_.types())
}

/// An argument of a function, a constructor or a method.
#[derive(Debug, PartialEq, Eq)]
pub struct Argument {
    pub(crate) name: String,
    pub(crate) type_: Type,
    pub(crate) by_ref: bool,
    pub(crate) optional: bool,
    pub(crate) default: Option<Literal>,
}

impl View for Argument {
    type V = ArgumentModel;

    open(crate) spec fn view(&self) -> ArgumentModel {
        ArgumentModel {
            name: self.name@,
            type_: self.type_@,
            by_ref: self.by_ref,
            optional: self.optional,
            default: default_model(self.default),
        }
    }
}

impl Clone for Argument {
    fn clone(&self) -> (r: Argument)
        ensures
            r@ == self@,
    {
        Argument {
            name: self.name.clone(),
            type_: self.type_.clone(),
            by_ref: self.by_ref,
            optional: self.optional,
            default: clone_default(&self.default),
        }
    }
}

impl HoldsTypes for Argument {
    open spec fn held(&self) -> Seq<TypeModel> {
        self@.type_.types()
    }

    fn held_types(&self) -> (r: Vec<&Type>) {
        self.type_.iter_types()
    }
}

impl Argument {
    pub fn name(&self) -> (r: &str)
        ensures
            r@ == self@.name,
    {
        self.name.as_str()
    }

    pub fn type_(&self) -> (r: Type)
        ensures
            r@ == self@.type_,
    {
        self.type_.clone()
    }

    pub fn by_ref(&self) -> (r: bool)
        ensures
            r == self@.by_ref,
    {
        self.by_ref
    }

    /// Whether the argument may be left out.
    pub fn optional(&self) -> (r: bool)
        ensures
            r == self@.optional,
    {
        self.optional
    }

    pub fn default_value(&self) -> (r: Option<Literal>)
        ensures
            default_model(r) == self@.default,
    {
        clone_default(&self.default)
    }

    /// The types that the argument holds: its type, then what that type holds.
    pub fn iter_types(&self) -> (r: Vec<&Type>)
        ensures
            models_of(r@) == self@.type_.types(),
    {
        self.type_.iter_types()
    }

    /// The argument as it crosses the boundary.
    pub fn lower(&self) -> (r: FFIArgument)
        ensures
            r@ == self@.lowered(),
    {
        FFIArgument { name: self.name.clone(), type_: FFIType::from_type(&self.type_) }
    }
}

/// The views of a list of arguments.
pub open spec fn argument_models(args: Seq<Argument>) -> Seq<ArgumentModel> {
    args.map_values(|a: Argument| a@)
}

/// A copy of a list of arguments.
pub(crate) fn clone_arguments(args: &Vec<Argument>) -> (r: Vec<Argument>)
    ensures
        argument_models(r@) == argument_models(args@),
{
    let mut out: Vec<Argument> = Vec::new();
    let mut i: usize = 0;
    while i < args.len()
        invariant
            i <= args@.len(),
            out@.len() == i,
            forall|j: int| 0 <= j < i ==> out@[j]@ == args@[j]@,
        decreases args@.len() - i,
    {
        out.push(args[i].clone());
        i += 1;
    }
    assert(argument_models(out@) =~= argument_models(args@));
    out
}

/// The arguments as they cross the boundary.
pub(crate) fn lower_arguments(args: &Vec<Argument>) -> (r: Vec<FFIArgument>)
    ensures
        crate::ffi::ffi_argument_models(r@) == lowered(argument_models(args@)),
{
    let mut out: Vec<FFIArgument> = Vec::new();
    let mut i: usize = 0;
    while i < args.len()
        invariant
            i <= args@.len(),
            out@.len() == i,
            forall|j: int| 0 <= j < i ==> out@[j]@ == args@[j]@.lowered(),
        decreases args@.len() - i,
    {
        out.push(args[i].lower());
        i += 1;
    }
    assert(crate::ffi::ffi_argument_models(out@) =~= lowered(argument_models(args@)));
    out
}

/// The low-level type of an optional result.
pub(crate) fn lower_optional(t: &Option<Type>) -> (r: Option<FFIType>)
    ensures
        r == lower_result(optional_model(*t)),
{
    match t {
        Some(t) => Some(FFIType::from_type(t)),
        None => None,
    }
}

/// The types that a list of arguments holds, argument after argument.
pub(crate) fn collect_argument_types(args: &Vec<Argument>) -> (r: Vec<&Type>)
    ensures
        models_of(r@) == argument_types(argument_models(args@)),
{
    proof {
        lemma_flat_map_views(
            args@,
            |a: Argument| a@,
            |a: ArgumentModel| a.type_.types(),
            |a: Argument| a.held(),
        );
    }
    collect_types(args)
}

/// The error type that a `Throws` attribute names.
pub open spec fn thrown_type(attrs: Seq<AttributeModel>) -> Option<TypeModel> {
    match throws_of(attrs) {
        Some(n) => Some(TypeModel::Error(n)),
        None => None,
    }
}

/// What a [`Function`] stands for.
pub struct FunctionModel {
    pub name: Seq<char>,
    pub arguments: Seq<ArgumentModel>,
    pub return_type: Option<TypeModel>,
    pub ffi_func: FFIFunctionModel,
    pub attributes: Seq<AttributeModel>,
}

impl FunctionModel {
    /// The low-level function of this function under the prefix `prefix`: its
    /// symbol is the prefix and the function's name; its arguments and its result
    /// are those of the function, as they cross the boundary.
    pub open spec fn ffi(self, prefix: Seq<char>) -> FFIFunctionModel {
        FFIFunctionModel {
            name: joined(prefix, self.name),
            arguments: lowered(self.arguments),
            return_type: lower_result(self.return_type),
        }
    }

    /// The function with its low-level function derived under `prefix`.
    pub open spec fn derived(self, prefix: Seq<char>) -> FunctionModel {
        FunctionModel { ffi_func: self.ffi(prefix), ..self }
    }

    /// The types that the function holds: those of its arguments, then those of its result.
    pub open spec fn types(self) -> Seq<TypeModel> {
        argument_types(self.arguments) + crate::types::optional_types(self.return_type)
    }
}

/// A free function of the component.
#[derive(Debug, PartialEq, Eq)]
pub struct Function {
    pub(crate) name: String,
    pub(crate) arguments: Vec<Argument>,
    pub(crate) return_type: Option<Type>,
    pub(crate) ffi_func: FFIFunction,
    pub(crate) attributes: FunctionAttributes,
}

impl View for Function {
    type V = FunctionModel;

    open(crate) spec fn view(&self) -> FunctionModel {
        FunctionModel {
            name: self.name@,
            arguments: argument_models(self.arguments@),
            return_type: optional_model(self.return_type),
            ffi_func: self.ffi_func@,
            attributes: self.attributes@,
        }
    }
}

impl Clone for Function {
    fn clone(&self) -> (r: Function)
        ensures
            r@ == self@,
    {
        Function {
            name: self.name.clone(),
            arguments: clone_arguments(&self.arguments),
            return_type: clone_optional(&self.return_type),
            ffi_func: self.ffi_func.clone(),
            attributes: self.attributes.clone(),
        }
    }
}

impl Function {
    pub fn name(&self) -> (r: &str)
        ensures
            r@ == self@.name,
    {
        self.name.as_str()
    }

    /// The arguments, in the order in which they were declared.
    pub fn arguments(&self) -> (r: Vec<&Argument>)
        ensures
            r@.len() == self@.arguments.len(),
            forall|i: int| 0 <= i < r@.len() ==> (#[trigger] r@[i])@ == self@.arguments[i],
    {
        refs(&self.arguments)
    }

    /// The arguments that a call passes: for a function, its arguments.
    pub fn full_arguments(&self) -> (r: Vec<Argument>)
        ensures
            argument_models(r@) == self@.arguments,
    {
        clone_arguments(&self.arguments)
    }

    pub fn return_type(&self) -> (r: Option<&Type>)
        ensures
            r is Some <==> self@.return_type is Some,
            r matches Some(t) ==> Some(t@) == self@.return_type,
    {
        self.return_type.as_ref()
    }

    pub fn ffi_func(&self) -> (r: &FFIFunction)
        ensures
            r@ == self@.ffi_func,
    {
        &self.ffi_func
    }

    /// The name of the error that the function can throw.
    pub fn throws(&self) -> (r: Option<&str>)
        ensures
            r is Some <==> throws_of(self@.attributes) is Some,
            r matches Some(n) ==> Some(n@) == throws_of(self@.attributes),
    {
        self.attributes.get_throws_err()
    }

    /// The type of the error that the function can throw.
    pub fn throws_type(&self) -> (r: Option<Type>)
        ensures
            optional_model(r) == thrown_type(self@.attributes),
    {
        match self.attributes.get_throws_err() {
            Some(name) => Some(Type::Error(name.to_owned())),
            None => None,
        }
    }

    /// Derives the low-level function under the prefix `ci_prefix`. Every type
    /// has a low-level counterpart, so this never fails.
    pub fn derive_ffi_func(&mut self, ci_prefix: &str) -> (r: Result<(), InterfaceError>)
        ensures
            r is Ok,
            final(self)@ == old(self)@.derived(ci_prefix@),
    {
        self.ffi_func.name = join(ci_prefix, self.name.as_str());
        self.ffi_func.arguments = lower_arguments(&self.arguments);
        self.ffi_func.return_type = lower_optional(&self.return_type);
        Ok(())
    }

    /// The types that the function holds: those of its arguments, then those of its result.
    pub fn iter_types(&self) -> (r: Vec<&Type>)
        ensures
            models_of(r@) == self@.types(),
    {
        let mut out = collect_argument_types(&self.arguments);
        let ghost front = models_of(out@);
        if let Some(t) = &self.return_type {
            let mut more = t.iter_types();
            let ghost back = models_of(more@);
            out.append(&mut more);
            assert(models_of(out@) =~= front + back);
        } else {
            assert(models_of(out@) =~= front + Seq::<TypeModel>::empty());
        }
        out
    }
}

} // verus!
