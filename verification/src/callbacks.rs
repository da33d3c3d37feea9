//! Callback interfaces: methods that the foreign side implements and the native
//! side calls, through a function pointer that the foreign side registers.

use vstd::prelude::*;
use crate::ffi::{
    ffi_argument_models, FFIArgument, FFIArgumentModel, FFIFunction, FFIFunctionModel, FFIType,
};
use crate::fold::refs;
use crate::object::{
    clone_methods, collect_method_types, method_models, method_types, Method, MethodModel,
};
use crate::text::{join, joined};
use crate::types::{models_of, HoldsTypes, Type, TypeModel};

verus! {

/// What a [`CallbackInterface`] stands for.
pub struct CallbackInterfaceModel {
    pub name: Seq<char>,
    pub methods: Seq<MethodModel>,
    pub ffi_init_callback: FFIFunctionModel,
}

impl CallbackInterfaceModel {
    /// The low-level function through which the foreign side registers its
    /// function pointer.
    pub open spec fn init_callback(self, prefix: Seq<char>) -> FFIFunctionModel {
        FFIFunctionModel {
            name: joined(joined(joined("ffi"@, prefix), self.name), "init_callback"@),
            arguments: seq![
                FFIArgumentModel { name: "callback_stub"@, type_: FFIType::ForeignCallback },
            ],
            return_type: None,
        }
    }

    /// The callback interface with its low-level function derived under `prefix`.
    pub open spec fn derived(self, prefix: Seq<char>) -> CallbackInterfaceModel {
        CallbackInterfaceModel { ffi_init_callback: self.init_callback(prefix), ..self }
    }

    /// The types that the callback interface holds, method after method.
    pub open spec fn types(self) -> Seq<TypeModel> {
        method_types(self.methods)
    }
}

/// A callback interface: a name and the methods that the foreign side implements.
#[derive(Debug, PartialEq, Eq)]
pub struct CallbackInterface {
    pub(crate) name: String,
    pub(crate) methods: Vec<Method>,
    pub(crate) ffi_init_callback: FFIFunction,
}

impl View for CallbackInterface {
    type V = CallbackInterfaceModel;

    open(crate) spec fn view(&self) -> CallbackInterfaceModel {
        CallbackInterfaceModel {
            name: self.name@,
            methods: method_models(self.methods@),
            ffi_init_callback: self.ffi_init_callback@,
        }
    }
}

impl Clone for CallbackInterface {
    fn clone(&self) -> (r: CallbackInterface)
        ensures
            r@ == self@,
    {
        CallbackInterface {
            name: self.name.clone(),
            methods: clone_methods(&self.methods),
            ffi_init_callback: self.ffi_init_callback.clone(),
        }
    }
}

impl HoldsTypes for CallbackInterface {
    open spec fn held(&self) -> Seq<TypeModel> {
        self@.types()
    }

    fn held_types(&self) -> (r: Vec<&Type>) {
        self.iter_types()
    }
}

impl CallbackInterface {
    /// A callback interface without methods.
    pub fn new(name: String) -> (r: CallbackInterface)
        ensures
            r@ == (CallbackInterfaceModel {
                name: name@,
                methods: Seq::empty(),
                ffi_init_callback: FFIFunctionModel::empty(),
            }),
    {
        let r = CallbackInterface {
            name,
            methods: Vec::new(),
            ffi_init_callback: FFIFunction::default(),
        };
        assert(r@.methods =~= Seq::empty());
        r
    }

    pub fn name(&self) -> (r: &str)
        ensures
            r@ == self@.name,
    {
        self.name.as_str()
    }

    /// The type that names this callback interface.
    pub fn type_(&self) -> (r: Type)
        ensures
            r@ == TypeModel::CallbackInterface(self@.name),
    {
        Type::CallbackInterface(self.name.clone())
    }

    /// The methods, in the order in which they were declared.
    pub fn methods(&self) -> (r: Vec<&Method>)
        ensures
            r@.len() == self@.methods.len(),
            forall|i: int| 0 <= i < r@.len() ==> (#[trigger] r@[i])@ == self@.methods[i],
    {
        refs(&self.methods)
    }

    pub fn ffi_init_callback(&self) -> (r: &FFIFunction)
        ensures
            r@ == self@.ffi_init_callback,
    {
        &self.ffi_init_callback
    }

    /// Derives the low-level function under the prefix `ci_prefix`.
    pub fn derive_ffi_funcs(&mut self, ci_prefix: &str)
        ensures
            final(self)@ == old(self)@.derived(ci_prefix@),
    {
        let prefix = join("ffi", ci_prefix);
        let named = join(prefix.as_str(), self.name.as_str());
        self.ffi_init_callback.name = join(named.as_str(), "init_callback");
        let mut args: Vec<FFIArgument> = Vec::new();
        args.push(
            FFIArgument { name: "callback_stub".to_owned(), type_: FFIType::ForeignCallback },
        );
        assert(ffi_argument_models(args@) =~= seq![
            FFIArgumentModel { name: "callback_stub"@, type_: FFIType::ForeignCallback },
        ]);
        self.ffi_init_callback.arguments = args;
        self.ffi_init_callback.return_type = None;
    }

    /// The types that the callback interface holds, method after method.
    pub fn iter_types(&self) -> (r: Vec<&Type>)
        ensures
            models_of(r@) == self@.types(),
    {
        collect_method_types(&self.methods)
    }
}

} // verus!
