//! Objects: opaque handles to state, with constructors that make them and
//! methods that are called on them.
//!
//! At the low level an object is a handle and a set of functions under a common
//! prefix: its constructors return a handle, its methods take one as their first
//! argument, and one more function frees it.

use vstd::prelude::*;
use crate::attributes::{
    throws_of, AttributeModel, ConstructorAttributes, MethodAttributes, SelfType,
};
use crate::failure::InterfaceError;
use crate::ffi::{
    ffi_argument_models, FFIArgument, FFIArgumentModel, FFIFunction, FFIFunctionModel, FFIType,
};
use crate::fold::{flat_map, lemma_flat_map_views, refs};
use crate::function::{
    argument_models, argument_types, clone_arguments, collect_argument_types, lower_arguments,
    lower_optional, lower_result, lowered, thrown_type, Argument, ArgumentModel,
};
use crate::text::{join, joined, same_name};
use crate::types::{
    clone_optional, collect_types, models_of, optional_model, optional_types, HoldsTypes, Type,
    TypeModel,
};

verus! {

/// What a [`Constructor`] stands for.
pub struct ConstructorModel {
    pub name: Seq<char>,
    pub arguments: Seq<ArgumentModel>,
    pub ffi_func: FFIFunctionModel,
    pub attributes: Seq<AttributeModel>,
}

impl ConstructorModel {
    /// The primary constructor is the one named `new`.
    pub open spec fn is_primary(self) -> bool {
        self.name == "new"@
    }

    /// The low-level function of this constructor of the object `object`: it
    /// takes the constructor's arguments and returns a handle.
    pub open spec fn ffi(self, prefix: Seq<char>, object: Seq<char>) -> FFIFunctionModel {
        FFIFunctionModel {
            name: joined(joined(prefix, object), self.name),
            arguments: lowered(self.arguments),
            return_type: Some(FFIType::RustArcPtr),
        }
    }

    /// The constructor with its low-level function derived.
    pub open spec fn derived(self, prefix: Seq<char>, object: Seq<char>) -> ConstructorModel {
        ConstructorModel { ffi_func: self.ffi(prefix, object), ..self }
    }

    /// The types that the constructor holds, argument after argument.
    pub open spec fn types(self) -> Seq<TypeModel> {
        argument_types(self.arguments)
    }
}

/// What a [`Method`] stands for.
pub struct MethodModel {
    pub name: Seq<char>,
    pub object_name: Seq<char>,
    pub return_type: Option<TypeModel>,
    pub arguments: Seq<ArgumentModel>,
    pub ffi_func: FFIFunctionModel,
    pub attributes: Seq<AttributeModel>,
}

impl MethodModel {
    /// Whether the method takes its receiver as a shared handle.
    pub open spec fn takes_self_by_arc(self) -> bool {
        self.attributes.contains(AttributeModel::SelfType(SelfType::ByArc))
    }

    /// The receiver: the implicit first argument of every method. It is passed
    /// by reference unless the method takes a shared handle.
    pub open spec fn receiver(self) -> ArgumentModel {
        ArgumentModel {
            name: "ptr"@,
            type_: TypeModel::Object(self.object_name),
            by_ref: !self.takes_self_by_arc(),
            optional: false,
            default: None,
        }
    }

    /// The receiver, then the declared arguments.
    pub open spec fn full_arguments(self) -> Seq<ArgumentModel> {
        seq![self.receiver()] + self.arguments
    }

    /// The low-level function of this method of the object `object`: it takes
    /// the receiver and the method's arguments, and returns what the method returns.
    pub open spec fn ffi(self, prefix: Seq<char>, object: Seq<char>) -> FFIFunctionModel {
        FFIFunctionModel {
            name: joined(joined(prefix, object), self.name),
            arguments: lowered(self.full_arguments()),
            return_type: lower_result(self.return_type),
        }
    }

    /// The method with its low-level function derived.
    pub open spec fn derived(self, prefix: Seq<char>, object: Seq<char>) -> MethodModel {
        MethodModel { ffi_func: self.ffi(prefix, object), ..self }
    }

    /// The types that the method holds: those of its arguments, then those of its result.
    pub open spec fn types(self) -> Seq<TypeModel> {
        argument_types(self.arguments) + optional_types(self.return_type)
    }
}

/// A constructor of an object.
#[derive(Debug, PartialEq, Eq)]
pub struct Constructor {
    pub(crate) name: String,
    pub(crate) arguments: Vec<Argument>,
    pub(crate) ffi_func: FFIFunction,
    pub(crate) attributes: ConstructorAttributes,
}

impl View for Constructor {
    type V = ConstructorModel;

    open(crate) spec fn view(&self) -> ConstructorModel {
        ConstructorModel {
            name: self.name@,
            arguments: argument_models(self.arguments@),
            ffi_func: self.ffi_func@,
            attributes: self.attributes@,
        }
    }
}

impl Clone for Constructor {
    fn clone(&self) -> (r: Constructor)
        ensures
            r@ == self@,
    {
        Constructor {
            name: self.name.clone(),
            arguments: clone_arguments(&self.arguments),
            ffi_func: self.ffi_func.clone(),
            attributes: self.attributes.clone(),
        }
    }
}

impl Default for Constructor {
    /// The primary constructor without arguments.
    fn default() -> (r: Constructor)
        ensures
            r@ == (ConstructorModel {
                name: "new"@,
                arguments: Seq::empty(),
                ffi_func: FFIFunctionModel::empty(),
                attributes: Seq::empty(),
            }),
    {
        let r = Constructor {
            name: "new".to_owned(),
            arguments: Vec::new(),
            ffi_func: FFIFunction::default(),
            attributes: ConstructorAttributes::default(),
        };
        assert(r@.arguments =~= Seq::empty());
        r
    }
}

impl HoldsTypes for Constructor {
    open spec fn held(&self) -> Seq<TypeModel> {
        self@.types()
    }

    fn held_types(&self) -> (r: Vec<&Type>) {
        self.iter_types()
    }
}

impl Constructor {
    pub fn name(&self) -> (r: &str)
        ensures
            r@ == self@.name,
    {
        self.name.as_str()
    }

    /// The arguments, in the order in which they were declared.
    pub fn arguments(&self) -> (r: Vec<&Argument>)
        ensures
            r@.len() == self@.arguments.len(),
            forall|i: int| 0 <= i < r@.len() ==> (#[trigger] r@[i])@ == self@.arguments[i],
    {
        refs(&self.arguments)
    }

    /// The arguments that a call passes: for a constructor, its arguments.
    pub fn full_arguments(&self) -> (r: Vec<Argument>)
        ensures
            argument_models(r@) == self@.arguments,
    {
        clone_arguments(&self.arguments)
    }

    pub fn ffi_func(&self) -> (r: &FFIFunction)
        ensures
            r@ == self@.ffi_func,
    {
        &self.ffi_func
    }

    /// The name of the error that the constructor can throw.
    pub fn throws(&self) -> (r: Option<&str>)
        ensures
            r is Some <==> throws_of(self@.attributes) is Some,
            r matches Some(n) ==> Some(n@) == throws_of(self@.attributes),
    {
        self.attributes.get_throws_err()
    }

    /// The type of the error that the constructor can throw.
    pub fn throws_type(&self) -> (r: Option<Type>)
        ensures
            optional_model(r) == thrown_type(self@.attributes),
    {
        match self.attributes.get_throws_err() {
            Some(name) => Some(Type::Error(name.to_owned())),
            None => None,
        }
    }

    /// Whether this is the primary constructor: the one named `new`.
    pub fn is_primary_constructor(&self) -> (r: bool)
        ensures
            r == self@.is_primary(),
    {
        same_name(&self.name, "new")
    }

    /// Derives the low-level function, for the object named `obj_prefix`.
    pub fn derive_ffi_func(&mut self, ci_prefix: &str, obj_prefix: &str)
        ensures
            final(self)@ == old(self)@.derived(ci_prefix@, obj_prefix@),
    {
        let prefix = join(ci_prefix, obj_prefix);
        self.ffi_func.name = join(prefix.as_str(), self.name.as_str());
        self.ffi_func.arguments = lower_arguments(&self.arguments);
        self.ffi_func.return_type = Some(FFIType::RustArcPtr);
    }

    /// The types that the constructor holds, argument after argument.
    pub fn iter_types(&self) -> (r: Vec<&Type>)
        ensures
            models_of(r@) == self@.types(),
    {
        collect_argument_types(&self.arguments)
    }
}

/// A method of an object, or of a callback interface.
#[derive(Debug, PartialEq, Eq)]
pub struct Method {
    pub(crate) name: String,
    pub(crate) object_name: String,
    pub(crate) return_type: Option<Type>,
    pub(crate) arguments: Vec<Argument>,
    pub(crate) ffi_func: FFIFunction,
    pub(crate) attributes: MethodAttributes,
}

impl View for Method {
    type V = MethodModel;

    open(crate) spec fn view(&self) -> MethodModel {
        MethodModel {
            name: self.name@,
            object_name: self.object_name@,
            return_type: optional_model(self.return_type),
            arguments: argument_models(self.arguments@),
            ffi_func: self.ffi_func@,
            attributes: self.attributes@,
        }
    }
}

impl Clone for Method {
    fn clone(&self) -> (r: Method)
        ensures
            r@ == self@,
    {
        Method {
            name: self.name.clone(),
            object_name: self.object_name.clone(),
            return_type: clone_optional(&self.return_type),
            arguments: clone_arguments(&self.arguments),
            ffi_func: self.ffi_func.clone(),
            attributes: self.attributes.clone(),
        }
    }
}

impl HoldsTypes for Method {
    open spec fn held(&self) -> Seq<TypeModel> {
        self@.types()
    }

    fn held_types(&self) -> (r: Vec<&Type>) {
        self.iter_types()
    }
}

impl Method {
    pub fn name(&self) -> (r: &str)
        ensures
            r@ == self@.name,
    {
        self.name.as_str()
    }

    /// The declared arguments, in order, without the receiver.
    pub fn arguments(&self) -> (r: Vec<&Argument>)
        ensures
            r@.len() == self@.arguments.len(),
            forall|i: int| 0 <= i < r@.len() ==> (#[trigger] r@[i])@ == self@.arguments[i],
    {
        refs(&self.arguments)
    }

    /// The arguments that a call passes: the receiver, then the declared arguments.
    pub fn full_arguments(&self) -> (r: Vec<Argument>)
        ensures
            argument_models(r@) == self@.full_arguments(),
    {
        let mut out: Vec<Argument> = Vec::new();
        out.push(
            Argument {
                name: "ptr".to_owned(),
                type_: Type::Object(self.object_name.clone()),
                by_ref: !self.attributes.get_self_by_arc(),
                optional: false,
                default: None,
            },
        );
        let mut rest = clone_arguments(&self.arguments);
        let ghost tail = argument_models(rest@);
        out.append(&mut rest);
        assert(argument_models(out@) =~= seq![self@.receiver()] + tail);
        out
    }

    pub fn return_type(&self) -> (r: Option<&Type>)
        ensures
            r is Some <==> self@.return_type is Some,
            r matches Some(t) ==> Some(t@) == self@.return_type,
    {
        self.return_type.as_ref()
    }

    pub fn ffi_func(&self) -> (r: &FFIFunction)
        ensures
            r@ == self@.ffi_func,
    {
        &self.ffi_func
    }

    /// The name of the error that the method can throw.
    pub fn throws(&self) -> (r: Option<&str>)
        ensures
            r is Some <==> throws_of(self@.attributes) is Some,
            r matches Some(n) ==> Some(n@) == throws_of(self@.attributes),
    {
        self.attributes.get_throws_err()
    }

    /// The type of the error that the method can throw.
    pub fn throws_type(&self) -> (r: Option<Type>)
        ensures
            optional_model(r) == thrown_type(self@.attributes),
    {
        match self.attributes.get_throws_err() {
            Some(name) => Some(Type::Error(name.to_owned())),
            None => None,
        }
    }

    pub fn takes_self_by_arc(&self) -> (r: bool)
        ensures
            r == self@.takes_self_by_arc(),
    {
        self.attributes.get_self_by_arc()
    }

    /// Derives the low-level function, for the object named `obj_prefix`. Every
    /// type has a low-level counterpart, so this never fails.
    pub fn derive_ffi_func(&mut self, ci_prefix: &str, obj_prefix: &str) -> (r: Result<
        (),
        InterfaceError,
    >)
        ensures
            r is Ok,
            final(self)@ == old(self)@.derived(ci_prefix@, obj_prefix@),
    {
        let prefix = join(ci_prefix, obj_prefix);
        let full = self.full_arguments();
        self.ffi_func.name = join(prefix.as_str(), self.name.as_str());
        self.ffi_func.arguments = lower_arguments(&full);
        self.ffi_func.return_type = lower_optional(&self.return_type);
        Ok(())
    }

    /// The types that the method holds: those of its arguments, then those of its result.
    pub fn iter_types(&self) -> (r: Vec<&Type>)
        ensures
            models_of(r@) == self@.types(),
    {
        let mut out = collect_argument_types(&self.arguments);
        let ghost front = models_of(out@);
        if let Some(t) = &self.return_type {
            let mut more = t.iter_types();
            let ghost back = models_of(more@);
            out.append(&mut more);
            assert(models_of(out@) =~= front + back);
        } else {
            assert(models_of(out@) =~= front + Seq::<TypeModel>::empty());
        }
        out
    }
}

/// The views of a list of constructors.
pub open spec fn constructor_models(items: Seq<Constructor>) -> Seq<ConstructorModel> {
    items.map_values(|c: Constructor| c@)
}

/// The views of a list of methods.
pub open spec fn method_models(items: Seq<Method>) -> Seq<MethodModel> {
    items.map_values(|m: Method| m@)
}

/// A copy of a list of constructors.
pub(crate) fn clone_constructors(items: &Vec<Constructor>) -> (r: Vec<Constructor>)
    ensures
        constructor_models(r@) == constructor_models(items@),
{
    let mut out: Vec<Constructor> = Vec::new();
    let mut i: usize = 0;
    while i < items.len()
        invariant
            i <= items@.len(),
            out@.len() == i,
            forall|j: int| 0 <= j < i ==> out@[j]@ == items@[j]@,
        decreases items@.len() - i,
    {
        out.push(items[i].clone());
        i += 1;
    }
    assert(constructor_models(out@) =~= constructor_models(items@));
    out
}

/// A copy of a list of methods.
pub(crate) fn clone_methods(items: &Vec<Method>) -> (r: Vec<Method>)
    ensures
        method_models(r@) == method_models(items@),
{
    let mut out: Vec<Method> = Vec::new();
    let mut i: usize = 0;
    while i < items.len()
        invariant
            i <= items@.len(),
            out@.len() == i,
            forall|j: int| 0 <= j < i ==> out@[j]@ == items@[j]@,
        decreases items@.len() - i,
    {
        out.push(items[i].clone());
        i += 1;
    }
    assert(method_models(out@) =~= method_models(items@));
    out
}

/// The types that a list of methods holds, method after method.
pub open spec fn method_types(methods: Seq<MethodModel>) -> Seq<TypeModel> {
    flat_map(methods, |m: MethodModel| m.types())
}

/// The types that a list of methods holds, method after method.
pub(crate) fn collect_method_types(methods: &Vec<Method>) -> (r: Vec<&Type>)
    ensures
        models_of(r@) == method_types(method_models(methods@)),
{
    proof {
        lemma_flat_map_views(
            methods@,
            |m: Method| m@,
            |m: MethodModel| m.types(),
            |m: Method| m.held(),
        );
    }
    collect_types(methods)
}


/// What an [`Object`] stands for.
pub struct ObjectModel {
    pub name: Seq<char>,
    pub constructors: Seq<ConstructorModel>,
    pub methods: Seq<MethodModel>,
    pub ffi_func_free: FFIFunctionModel,
    pub uses_deprecated_threadsafe_attribute: bool,
}

/// The low-level functions of a list of constructors.
pub open spec fn constructor_ffis(items: Seq<ConstructorModel>) -> Seq<FFIFunctionModel> {
    items.map_values(|c: ConstructorModel| c.ffi_func)
}

/// The low-level functions of a list of methods.
pub open spec fn method_ffis(items: Seq<MethodModel>) -> Seq<FFIFunctionModel> {
    items.map_values(|m: MethodModel| m.ffi_func)
}

impl ObjectModel {
    /// The low-level function that frees a handle to the object.
    pub open spec fn free_function(self, prefix: Seq<char>) -> FFIFunctionModel {
        FFIFunctionModel {
            name: joined(joined(joined("ffi"@, prefix), self.name), "object_free"@),
            arguments: seq![FFIArgumentModel { name: "ptr"@, type_: FFIType::RustArcPtr }],
            return_type: None,
        }
    }

    /// The object with every low-level function derived under `prefix`.
    pub open spec fn derived(self, prefix: Seq<char>) -> ObjectModel {
        ObjectModel {
            ffi_func_free: self.free_function(prefix),
            constructors: self.constructors.map_values(
                |c: ConstructorModel| c.derived(prefix, self.name),
            ),
            methods: self.methods.map_values(|m: MethodModel| m.derived(prefix, self.name)),
            ..self
        }
    }

    /// The types that the object holds: those of its methods, then those of its constructors.
    pub open spec fn types(self) -> Seq<TypeModel> {
        method_types(self.methods) + flat_map(
            self.constructors,
            |c: ConstructorModel| c.types(),
        )
    }

    /// The low-level functions of the object: the one that frees a handle, then
    /// those of the constructors, then those of the methods.
    pub open spec fn ffi_functions(self) -> Seq<FFIFunctionModel> {
        seq![self.ffi_func_free] + constructor_ffis(self.constructors) + method_ffis(self.methods)
    }

    /// Whether the constructor at `i` is the first primary one.
    pub open spec fn is_primary_at(self, i: int) -> bool {
        &&& 0 <= i < self.constructors.len()
        &&& self.constructors[i].is_primary()
        &&& forall|j: int| 0 <= j < i ==> !(#[trigger] self.constructors[j]).is_primary()
    }

    /// The constructors other than primary ones, in order.
    pub open spec fn alternates(self) -> Seq<ConstructorModel> {
        self.constructors.filter(|c: ConstructorModel| !c.is_primary())
    }

    /// The methods named `name`, in order.
    pub open spec fn methods_named(self, name: Seq<char>) -> Seq<MethodModel> {
        self.methods.filter(|m: MethodModel| m.name == name)
    }
}

/// An object: a name, its constructors and its methods.
#[derive(Debug, PartialEq, Eq)]
pub struct Object {
    pub(crate) name: String,
    pub(crate) constructors: Vec<Constructor>,
    pub(crate) methods: Vec<Method>,
    pub(crate) ffi_func_free: FFIFunction,
    pub(crate) uses_deprecated_threadsafe_attribute: bool,
}

impl View for Object {
    type V = ObjectModel;

    open(crate) spec fn view(&self) -> ObjectModel {
        ObjectModel {
            name: self.name@,
            constructors: constructor_models(self.constructors@),
            methods: method_models(self.methods@),
            ffi_func_free: self.ffi_func_free@,
            uses_deprecated_threadsafe_attribute: self.uses_deprecated_threadsafe_attribute,
        }
    }
}

impl Clone for Object {
    fn clone(&self) -> (r: Object)
        ensures
            r@ == self@,
    {
        Object {
            name: self.name.clone(),
            constructors: clone_constructors(&self.constructors),
            methods: clone_methods(&self.methods),
            ffi_func_free: self.ffi_func_free.clone(),
            uses_deprecated_threadsafe_attribute: self.uses_deprecated_threadsafe_attribute,
        }
    }
}

impl HoldsTypes for Object {
    open spec fn held(&self) -> Seq<TypeModel> {
        self@.types()
    }

    fn held_types(&self) -> (r: Vec<&Type>) {
        self.iter_types()
    }
}

impl Object {
    /// An object without constructors and methods.
    pub fn new(name: String) -> (r: Object)
        ensures
            r@ == (ObjectModel {
                name: name@,
                constructors: Seq::empty(),
                methods: Seq::empty(),
                ffi_func_free: FFIFunctionModel::empty(),
                uses_deprecated_threadsafe_attribute: false,
            }),
    {
        let r = Object {
            name,
            constructors: Vec::new(),
            methods: Vec::new(),
            ffi_func_free: FFIFunction::default(),
            uses_deprecated_threadsafe_attribute: false,
        };
        assert(r@.constructors =~= Seq::empty());
        assert(r@.methods =~= Seq::empty());
        r
    }

    pub fn name(&self) -> (r: &str)
        ensures
            r@ == self@.name,
    {
        self.name.as_str()
    }

    /// The type that names this object.
    pub fn type_(&self) -> (r: Type)
        ensures
            r@ == TypeModel::Object(self@.name),
    {
        Type::Object(self.name.clone())
    }

    /// The constructors, in the order in which they were declared.
    pub fn constructors(&self) -> (r: Vec<&Constructor>)
        ensures
            r@.len() == self@.constructors.len(),
            forall|i: int| 0 <= i < r@.len() ==> (#[trigger] r@[i])@ == self@.constructors[i],
    {
        refs(&self.constructors)
    }

    /// The primary constructor: the first constructor named `new`, if there is one.
    pub fn primary_constructor(&self) -> (r: Option<&Constructor>)
        ensures
            match r {
                Some(c) => exists|i: int| self@.is_primary_at(i) && c@ == self@.constructors[i],
                None => forall|i: int|
                    0 <= i < self@.constructors.len() ==> !(
                    #[trigger] self@.constructors[i]).is_primary(),
            },
    {
        let mut i: usize = 0;
        while i < self.constructors.len()
            invariant
                i <= self.constructors@.len(),
                forall|j: int| 0 <= j < i ==> !(#[trigger] self@.constructors[j]).is_primary(),
            decreases self.constructors@.len() - i,
        {
            if self.constructors[i].is_primary_constructor() {
                assert(self@.is_primary_at(i as int));
                return Some(&self.constructors[i]);
            }
            i += 1;
        }
        None
    }

    /// The constructors other than primary ones, in the order in which they were declared.
    pub fn alternate_constructors(&self) -> (r: Vec<&Constructor>)
        ensures
            r@.map_values(|c: &Constructor| c@) == self@.alternates(),
    {
        let ghost all = self@.constructors;
        let ghost keep = |c: ConstructorModel| !c.is_primary();
        let mut out: Vec<&Constructor> = Vec::new();
        let mut i: usize = 0;
        proof {
            reveal(Seq::filter);
            assert(all.take(0) =~= Seq::<ConstructorModel>::empty());
            assert(out@.map_values(|c: &Constructor| c@) =~= all.take(0).filter(keep));
        }
        while i < self.constructors.len()
            invariant
                i <= self.constructors@.len(),
                all == self@.constructors,
                keep == (|c: ConstructorModel| !c.is_primary()),
                out@.map_values(|c: &Constructor| c@) == all.take(i as int).filter(keep),
            decreases self.constructors@.len() - i,
        {
            let ghost before = out@.map_values(|c: &Constructor| c@);
            proof {
                all.take(i as int).lemma_filter_push(all[i as int], keep);
                assert(all.take(i as int).push(all[i as int]) =~= all.take(i as int + 1));
            }
            if !self.constructors[i].is_primary_constructor() {
                out.push(&self.constructors[i]);
                assert(out@.map_values(|c: &Constructor| c@) =~= before.push(all[i as int]));
            }
            i += 1;
        }
        assert(all.take(i as int) =~= all);
        out
    }

    /// The methods, in the order in which they were declared.
    pub fn methods(&self) -> (r: Vec<&Method>)
        ensures
            r@.len() == self@.methods.len(),
            forall|i: int| 0 <= i < r@.len() ==> (#[trigger] r@[i])@ == self@.methods[i],
    {
        refs(&self.methods)
    }

    /// The number of methods named `name`.
    pub fn count_methods(&self, name: &str) -> (r: usize)
        ensures
            r == self@.methods_named(name@).len(),
    {
        let ghost all = self@.methods;
        let ghost keep = |m: MethodModel| m.name == name@;
        let mut count: usize = 0;
        let mut i: usize = 0;
        proof {
            reveal(Seq::filter);
            assert(all.take(0) =~= Seq::<MethodModel>::empty());
        }
        while i < self.methods.len()
            invariant
                i <= self.methods@.len(),
                all == self@.methods,
                keep == (|m: MethodModel| m.name == name@),
                count == all.take(i as int).filter(keep).len(),
                count <= i,
            decreases self.methods@.len() - i,
        {
            proof {
                all.take(i as int).lemma_filter_push(all[i as int], keep);
                assert(all.take(i as int).push(all[i as int]) =~= all.take(i as int + 1));
            }
            if same_name(&self.methods[i].name, name) {
                count += 1;
            }
            i += 1;
        }
        assert(all.take(i as int) =~= all);
        count
    }

    /// The method named `name`, of an object that has exactly one method of that name.
    pub fn get_method(&self, name: &str) -> (r: Method)
        requires
            self@.methods_named(name@).len() == 1,
        ensures
            r@ == self@.methods_named(name@)[0],
    {
        let ghost all = self@.methods;
        let ghost keep = |m: MethodModel| m.name == name@;
        let mut i: usize = 0;
        proof {
            reveal(Seq::filter);
            assert(all.take(0) =~= Seq::<MethodModel>::empty());
        }
        while i < self.methods.len()
            invariant
                i <= self.methods@.len(),
                all == self@.methods,
                keep == (|m: MethodModel| m.name == name@),
                all.take(i as int).filter(keep).len() == 0,
                all.filter(keep).len() == 1,
            decreases self.methods@.len() - i,
        {
            proof {
                all.take(i as int).lemma_filter_push(all[i as int], keep);
                assert(all.take(i as int).push(all[i as int]) =~= all.take(i as int + 1));
            }
            if same_name(&self.methods[i].name, name) {
                proof {
                    let head = all.take(i as int + 1);
                    let tail = all.skip(i as int + 1);
                    assert(head + tail =~= all);
                    Seq::filter_distributes_over_add(head, tail, keep);
                    assert(head.filter(keep) =~= seq![all[i as int]]);
                    assert(all.filter(keep)[0] == all[i as int]);
                }
                return self.methods[i].clone();
            }
            i += 1;
        }
        proof {
            assert(all.take(i as int) =~= all);
        }
        self.methods[0].clone()
    }

    pub fn ffi_object_free(&self) -> (r: &FFIFunction)
        ensures
            r@ == self@.ffi_func_free,
    {
        &self.ffi_func_free
    }

    pub fn uses_deprecated_threadsafe_attribute(&self) -> (r: bool)
        ensures
            r == self@.uses_deprecated_threadsafe_attribute,
    {
        self.uses_deprecated_threadsafe_attribute
    }

    /// The low-level functions of the object: the one that frees a handle, then
    /// those of the constructors, then those of the methods.
    pub fn iter_ffi_function_definitions(&self) -> (r: Vec<&FFIFunction>)
        ensures
            r@.map_values(|f: &FFIFunction| f@) == self@.ffi_functions(),
    {
        let mut out: Vec<&FFIFunction> = Vec::new();
        out.push(&self.ffi_func_free);
        let mut i: usize = 0;
        while i < self.constructors.len()
            invariant
                i <= self.constructors@.len(),
                out@.map_values(|f: &FFIFunction| f@) == seq![self@.ffi_func_free]
                    + constructor_ffis(self@.constructors.take(i as int)),
            decreases self.constructors@.len() - i,
        {
            let ghost before = out@.map_values(|f: &FFIFunction| f@);
            out.push(&self.constructors[i].ffi_func);
            proof {
                assert(self@.constructors.take(i as int + 1) =~= self@.constructors.take(
                    i as int,
                ).push(self@.constructors[i as int]));
                assert(out@.map_values(|f: &FFIFunction| f@) =~= before.push(
                    self@.constructors[i as int].ffi_func,
                ));
                assert(constructor_ffis(self@.constructors.take(i as int + 1))
                    =~= constructor_ffis(self@.constructors.take(i as int)).push(
                    self@.constructors[i as int].ffi_func,
                ));
            }
            i += 1;
        }
        assert(self@.constructors.take(i as int) =~= self@.constructors);
        let mut k: usize = 0;
        while k < self.methods.len()
            invariant
                k <= self.methods@.len(),
                out@.map_values(|f: &FFIFunction| f@) == seq![self@.ffi_func_free]
                    + constructor_ffis(self@.constructors) + method_ffis(
                    self@.methods.take(k as int),
                ),
            decreases self.methods@.len() - k,
        {
            let ghost before = out@.map_values(|f: &FFIFunction| f@);
            out.push(&self.methods[k].ffi_func);
            proof {
                assert(self@.methods.take(k as int + 1) =~= self@.methods.take(k as int).push(
                    self@.methods[k as int],
                ));
                assert(out@.map_values(|f: &FFIFunction| f@) =~= before.push(
                    self@.methods[k as int].ffi_func,
                ));
                assert(method_ffis(self@.methods.take(k as int + 1)) =~= method_ffis(
                    self@.methods.take(k as int),
                ).push(self@.methods[k as int].ffi_func));
            }
            k += 1;
        }
        assert(self@.methods.take(k as int) =~= self@.methods);
        out
    }

    /// Derives every low-level function of the object under the prefix
    /// `ci_prefix`. Every type has a low-level counterpart, so this never fails.
    pub fn derive_ffi_funcs(&mut self, ci_prefix: &str) -> (r: Result<(), InterfaceError>)
        ensures
            r is Ok,
            final(self)@ == old(self)@.derived(ci_prefix@),
    {
        let prefix = join("ffi", ci_prefix);
        let named = join(prefix.as_str(), self.name.as_str());
        self.ffi_func_free.name = join(named.as_str(), "object_free");
        let mut args: Vec<FFIArgument> = Vec::new();
        args.push(FFIArgument { name: "ptr".to_owned(), type_: FFIType::RustArcPtr });
        assert(ffi_argument_models(args@) =~= seq![
            FFIArgumentModel { name: "ptr"@, type_: FFIType::RustArcPtr },
        ]);
        self.ffi_func_free.arguments = args;
        self.ffi_func_free.return_type = None;
        let mut i: usize = 0;
        while i < self.constructors.len()
            invariant
                i <= self.constructors@.len(),
                self.constructors@.len() == old(self).constructors@.len(),
                self.name == old(self).name,
                self.methods == old(self).methods,
                self.uses_deprecated_threadsafe_attribute == old(
                    self,
                ).uses_deprecated_threadsafe_attribute,
                self.ffi_func_free@ == old(self)@.free_function(ci_prefix@),
                forall|j: int|
                    0 <= j < i ==> (#[trigger] self.constructors@[j])@ == old(
                        self,
                    ).constructors@[j]@.derived(ci_prefix@, self.name@),
                forall|j: int|
                    i <= j < self.constructors@.len() ==> (#[trigger] self.constructors@[j])
                        == old(self).constructors@[j],
            decreases self.constructors@.len() - i,
        {
            self.constructors[i].derive_ffi_func(ci_prefix, self.name.as_str());
            i += 1;
        }
        let mut k: usize = 0;
        while k < self.methods.len()
            invariant
                k <= self.methods@.len(),
                self.methods@.len() == old(self).methods@.len(),
                self.name == old(self).name,
                self.uses_deprecated_threadsafe_attribute == old(
                    self,
                ).uses_deprecated_threadsafe_attribute,
                self.ffi_func_free@ == old(self)@.free_function(ci_prefix@),
                self@.constructors == old(self)@.derived(ci_prefix@).constructors,
                forall|j: int|
                    0 <= j < k ==> (#[trigger] self.methods@[j])@ == old(
                        self,
                    ).methods@[j]@.derived(ci_prefix@, self.name@),
                forall|j: int|
                    k <= j < self.methods@.len() ==> (#[trigger] self.methods@[j]) == old(
                        self,
                    ).methods@[j],
            decreases self.methods@.len() - k,
        {
            let _ = self.methods[k].derive_ffi_func(ci_prefix, self.name.as_str());
            k += 1;
        }
        assert(self@.methods =~= old(self)@.derived(ci_prefix@).methods);
        Ok(())
    }

    /// The types that the object holds: those of its methods, then those of its constructors.
    pub fn iter_types(&self) -> (r: Vec<&Type>)
        ensures
            models_of(r@) == self@.types(),
    {
        let mut out = collect_method_types(&self.methods);
        let ghost front = models_of(out@);
        proof {
            lemma_flat_map_views(
                self.constructors@,
                |c: Constructor| c@,
                |c: ConstructorModel| c.types(),
                |c: Constructor| c.held(),
            );
        }
        let mut more = collect_types(&self.constructors);
        let ghost back = models_of(more@);
        out.append(&mut more);
        assert(models_of(out@) =~= front + back);
        out
    }
}

} // verus!
