//! The registry of declared type names, and the resolution of type expressions
//! against it.
//!
//! A build fills the registry in two passes. The first visits every declaration
//! for the name it introduces; the second resolves the types of fields, arguments
//! and results, which may then name any declaration, whatever the order in which
//! the declarations were written.

use vstd::prelude::*;
use crate::failure::{Failure, InterfaceError};
use crate::text::same_name;
use crate::types::{builtin_type, resolve_builtin_type, Type, TypeModel};

verus! {

/// A type expression as it is written: a name, or a structure over expressions.
#[derive(Debug, PartialEq, Eq)]
pub enum TypeExpr {
    /// A built-in or declared name.
    Named(String),
    /// `T?`
    Optional(Box<TypeExpr>),
    /// `sequence<T>`
    Sequence(Box<TypeExpr>),
    /// `record<K, V>`
    Mapping(Box<TypeExpr>, Box<TypeExpr>),
}

/// What a [`TypeUniverse`] stands for.
pub struct UniverseModel {
    /// The type that each declared name is bound to.
    pub definitions: Map<Seq<char>, TypeModel>,
    /// Every type seen so far, each once, in the order in which they were first seen.
    pub known: Seq<TypeModel>,
}

/// The type that `name` is bound to: built-in names are bound from the start.
pub open spec fn binding(definitions: Map<Seq<char>, TypeModel>, name: Seq<char>) -> Option<
    TypeModel,
> {
    match builtin_type(name) {
        Some(t) => Some(t),
        None => if definitions.contains_key(name) {
            Some(definitions[name])
        } else {
            None
        },
    }
}

/// The type that an expression denotes under `definitions`, or the failure that
/// names the first unbound name in it, reading from left to right.
pub open spec fn resolve(definitions: Map<Seq<char>, TypeModel>, expr: TypeExpr) -> Result<
    TypeModel,
    Failure,
>
    decreases expr,
{
    match expr {
        TypeExpr::Named(n) => match binding(definitions, n@) {
            Some(t) => Ok(t),
            None => Err(Failure::UnknownType(n@)),
        },
        TypeExpr::Optional(e) => match resolve(definitions, *e) {
            Ok(t) => Ok(TypeModel::Optional(Box::new(t))),
            Err(f) => Err(f),
        },
        TypeExpr::Sequence(e) => match resolve(definitions, *e) {
            Ok(t) => Ok(TypeModel::Sequence(Box::new(t))),
            Err(f) => Err(f),
        },
        TypeExpr::Mapping(k, v) => match resolve(definitions, *k) {
            Ok(kt) => match resolve(definitions, *v) {
                Ok(vt) => Ok(TypeModel::Mapping(Box::new(kt), Box::new(vt))),
                Err(f) => Err(f),
            },
            Err(f) => Err(f),
        },
    }
}

/// `known` after `t` was seen: the structural components of `t` are recorded
/// before `t` itself, and a type already recorded is not recorded again.
pub open spec fn register(known: Seq<TypeModel>, t: TypeModel) -> Seq<TypeModel>
    decreases t,
{
    let inner = match t {
        TypeModel::Optional(x) => register(known, *x),
        TypeModel::Sequence(x) => register(known, *x),
        TypeModel::Mapping(k, v) => register(register(known, *k), *v),
        _ => known,
    };
    if inner.contains(t) {
        inner
    } else {
        inner.push(t)
    }
}

/// The bindings that a list of definitions holds.
pub closed spec fn bindings_of(defs: Seq<(String, Type)>) -> Map<Seq<char>, TypeModel>
    decreases defs.len(),
{
    if defs.len() == 0 {
        Map::empty()
    } else {
        bindings_of(defs.drop_last()).insert(defs.last().0@, defs.last().1@)
    }
}

proof fn lemma_bindings_of(defs: Seq<(String, Type)>)
    requires
        forall|i: int, j: int| 0 <= i < j < defs.len() ==> defs[i].0@ != defs[j].0@,
    ensures
        forall|i: int|
            0 <= i < defs.len() ==> bindings_of(defs).contains_key(#[trigger] defs[i].0@)
                && bindings_of(defs)[defs[i].0@] == defs[i].1@,
        forall|n: Seq<char>| #[trigger]
            bindings_of(defs).contains_key(n) ==> exists|i: int|
                0 <= i < defs.len() && defs[i].0@ == n,
    decreases defs.len(),
{
    if defs.len() > 0 {
        let front = defs.drop_last();
        lemma_bindings_of(front);
        assert forall|i: int| 0 <= i < defs.len() implies bindings_of(defs).contains_key(
            #[trigger] defs[i].0@,
        ) && bindings_of(defs)[defs[i].0@] == defs[i].1@ by {
            if i < defs.len() - 1 {
                assert(front[i] == defs[i]);
            }
        }
        assert forall|n: Seq<char>| #[trigger] bindings_of(defs).contains_key(n) implies exists|
            i: int,
        | 0 <= i < defs.len() && defs[i].0@ == n by {
            if n == defs.last().0@ {
                assert(defs[defs.len() - 1].0@ == n);
            } else {
                assert(bindings_of(front).contains_key(n));
                let i = choose|i: int| 0 <= i < front.len() && front[i].0@ == n;
                assert(front[i] == defs[i]);
                assert(defs[i].0@ == n);
            }
        }
    }
}

/// The registry of a build: the type that each declared name is bound to, and
/// every type seen so far.
#[derive(Debug)]
pub struct TypeUniverse {
    type_definitions: Vec<(String, Type)>,
    all_known_types: Vec<Type>,
}

impl View for TypeUniverse {
    type V = UniverseModel;

    closed spec fn view(&self) -> UniverseModel {
        UniverseModel {
            definitions: bindings_of(self.type_definitions@),
            known: self.all_known_types@.map_values(|t: Type| t@),
        }
    }
}

impl TypeUniverse {
    /// No name is bound twice, no built-in name is bound anew, and no type is
    /// recorded twice.
    pub closed spec fn wf(&self) -> bool {
        &&& forall|i: int, j: int|
            0 <= i < j < self.type_definitions@.len() ==> self.type_definitions@[i].0@
                != self.type_definitions@[j].0@
        &&& forall|i: int|
            0 <= i < self.type_definitions@.len() ==> builtin_type(
                #[trigger] self.type_definitions@[i].0@,
            ) is None
        &&& self@.known.no_duplicates()
    }

    /// What well-formedness means for the view.
    pub proof fn lemma_wf(&self)
        requires
            self.wf(),
        ensures
            self@.known.no_duplicates(),
            forall|n: Seq<char>| #[trigger]
                self@.definitions.contains_key(n) ==> builtin_type(n) is None,
    {
        lemma_bindings_of(self.type_definitions@);
    }

    /// An empty registry.
    pub fn new() -> (r: TypeUniverse)
        ensures
            r.wf(),
            r@.definitions == Map::<Seq<char>, TypeModel>::empty(),
            r@.known == Seq::<TypeModel>::empty(),
    {
        let r = TypeUniverse { type_definitions: Vec::new(), all_known_types: Vec::new() };
        assert(r@.known =~= Seq::<TypeModel>::empty());
        r
    }

    fn position(&self, name: &str) -> (r: Option<usize>)
        ensures
            match r {
                Some(i) => i < self.type_definitions@.len() && self.type_definitions@[i as int].0@
                    == name@,
                None => forall|j: int|
                    0 <= j < self.type_definitions@.len() ==> self.type_definitions@[j].0@
                        != name@,
            },
    {
        let mut i: usize = 0;
        while i < self.type_definitions.len()
            invariant
                i <= self.type_definitions@.len(),
                forall|j: int| 0 <= j < i ==> self.type_definitions@[j].0@ != name@,
            decreases self.type_definitions@.len() - i,
        {
            if same_name(&self.type_definitions[i].0, name) {
                return Some(i);
            }
            i += 1;
        }
        None
    }

    /// The type that a declared name is bound to, if the name was declared.
    pub fn get_type_definition(&self, name: &str) -> (r: Option<Type>)
        requires
            self.wf(),
        ensures
            r is Some <==> self@.definitions.contains_key(name@),
            r matches Some(t) ==> t@ == self@.definitions[name@],
    {
        proof {
            lemma_bindings_of(self.type_definitions@);
        }
        match self.position(name) {
            Some(i) => Some(self.type_definitions[i].1.clone()),
            None => None,
        }
    }

    fn knows(&self, type_: &Type) -> (r: bool)
        ensures
            r == self@.known.contains(type_@),
    {
        let mut i: usize = 0;
        while i < self.all_known_types.len()
            invariant
                i <= self.all_known_types@.len(),
                forall|j: int| 0 <= j < i ==> self@.known[j] != type_@,
            decreases self.all_known_types@.len() - i,
        {
            if self.all_known_types[i].same(type_) {
                assert(self@.known[i as int] == type_@);
                return true;
            }
            i += 1;
        }
        false
    }

    /// Records a type, and before it its structural components, as seen.
    pub fn add_known_type(&mut self, type_: &Type)
        requires
            old(self).wf(),
        ensures
            final(self).wf(),
            final(self)@.definitions == old(self)@.definitions,
            final(self)@.known == register(old(self)@.known, type_@),
        decreases type_,
    {
        match type_ {
            Type::Optional(t) | Type::Sequence(t) => {
                self.add_known_type(t);
            },
            Type::Mapping(k, v) => {
                self.add_known_type(k);
                self.add_known_type(v);
            },
            _ => {},
        }
        if !self.knows(type_) {
            let ghost before = self@.known;
            self.all_known_types.push(type_.clone());
            assert(self@.known =~= before.push(type_@));
        }
    }

    /// Binds `name` to `type_`, and records the type as seen. A name that is
    /// already bound, built-in names included, can only be bound again to the
    /// type it has; then nothing changes but what is recorded as seen.
    pub fn add_type_definition(&mut self, name: &str, type_: Type) -> (r: Result<
        (),
        InterfaceError,
    >)
        requires
            old(self).wf(),
        ensures
            final(self).wf(),
            match binding(old(self)@.definitions, name@) {
                Some(t) if t != type_@ => r is Err && r->Err_0@ == Failure::DuplicateDefinition(
                    name@,
                ) && final(self)@ == old(self)@,
                Some(t) => r is Ok && final(self)@.definitions == old(self)@.definitions
                    && final(self)@.known == register(old(self)@.known, type_@),
                None => r is Ok && final(self)@.definitions == old(self)@.definitions.insert(
                    name@,
                    type_@,
                ) && final(self)@.known == register(old(self)@.known, type_@),
            },
    {
        proof {
            lemma_bindings_of(self.type_definitions@);
        }
        if let Some(builtin) = resolve_builtin_type(name) {
            if builtin.same(&type_) {
                self.add_known_type(&type_);
                return Ok(());
            }
            return Err(InterfaceError::DuplicateDefinition(name.to_owned()));
        }
        match self.position(name) {
            Some(i) => {
                if self.type_definitions[i].1.same(&type_) {
                    self.add_known_type(&type_);
                    Ok(())
                } else {
                    Err(InterfaceError::DuplicateDefinition(name.to_owned()))
                }
            },
            None => {
                let ghost before = self.type_definitions@;
                let seen = type_.clone();
                let name = name.to_owned();
                self.type_definitions.push((name, type_));
                assert(self.type_definitions@.drop_last() =~= before);
                assert forall|i: int, j: int|
                    0 <= i < j < self.type_definitions@.len() implies self.type_definitions@[i].0@
                    != self.type_definitions@[j].0@ by {
                    if j < before.len() {
                        assert(self.type_definitions@[i] == before[i]);
                        assert(self.type_definitions@[j] == before[j]);
                    } else {
                        assert(self.type_definitions@[i] == before[i]);
                    }
                }
                assert forall|i: int| 0 <= i < self.type_definitions@.len() implies builtin_type(
                    #[trigger] self.type_definitions@[i].0@,
                ) is None by {
                    if i < before.len() {
                        assert(self.type_definitions@[i] == before[i]);
                    }
                }
                self.add_known_type(&seen);
                Ok(())
            },
        }
    }

    /// Every type seen so far, each once, in the order in which they were first seen.
    pub fn iter_known_types(&self) -> (r: Vec<&Type>)
        ensures
            crate::types::models_of(r@) == self@.known,
    {
        let mut out: Vec<&Type> = Vec::new();
        let mut i: usize = 0;
        while i < self.all_known_types.len()
            invariant
                i <= self.all_known_types@.len(),
                out@.len() == i,
                forall|j: int| 0 <= j < i ==> out@[j] == &self.all_known_types@[j],
            decreases self.all_known_types@.len() - i,
        {
            out.push(&self.all_known_types[i]);
            i += 1;
        }
        assert(crate::types::models_of(out@) =~= self@.known);
        out
    }

    fn resolve_under(&self, expr: &TypeExpr) -> (r: Result<Type, InterfaceError>)
        requires
            self.wf(),
        ensures
            match resolve(self@.definitions, *expr) {
                Ok(t) => r is Ok && r->Ok_0@ == t,
                Err(f) => r is Err && r->Err_0@ == f,
            },
        decreases expr,
    {
        match expr {
            TypeExpr::Named(n) => {
                if let Some(t) = resolve_builtin_type(n.as_str()) {
                    return Ok(t);
                }
                match self.get_type_definition(n.as_str()) {
                    Some(t) => Ok(t),
                    None => Err(InterfaceError::UnknownType(n.clone())),
                }
            },
            TypeExpr::Optional(e) => {
                match self.resolve_under(e) {
                    Ok(t) => Ok(Type::Optional(Box::new(t))),
                    Err(f) => Err(f),
                }
            },
            TypeExpr::Sequence(e) => {
                match self.resolve_under(e) {
                    Ok(t) => Ok(Type::Sequence(Box::new(t))),
                    Err(f) => Err(f),
                }
            },
            TypeExpr::Mapping(k, v) => {
                match self.resolve_under(k) {
                    Ok(kt) => match self.resolve_under(v) {
                        Ok(vt) => Ok(Type::Mapping(Box::new(kt), Box::new(vt))),
                        Err(f) => Err(f),
                    },
                    Err(f) => Err(f),
                }
            },
        }
    }

    /// Resolves a type expression, and records the type it denotes, with every
    /// structure built on the way, as seen. Fails, and changes nothing, where the
    /// expression names a type that is neither built in nor declared.
    pub fn resolve_type_expression(&mut self, expr: &TypeExpr) -> (r: Result<
        Type,
        InterfaceError,
    >)
        requires
            old(self).wf(),
        ensures
            final(self).wf(),
            final(self)@.definitions == old(self)@.definitions,
            match resolve(old(self)@.definitions, *expr) {
                Ok(t) => r is Ok && r->Ok_0@ == t && final(self)@.known == register(
                    old(self)@.known,
                    t,
                ),
                Err(f) => r is Err && r->Err_0@ == f && final(self)@ == old(self)@,
            },
    {
        match self.resolve_under(expr) {
            Ok(t) => {
                self.add_known_type(&t);
                Ok(t)
            },
            Err(f) => Err(f),
        }
    }
}

} // verus!
