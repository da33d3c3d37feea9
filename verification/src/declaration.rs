//! Declarations are found by their names: the first of a name is the one meant.

use vstd::prelude::*;
use crate::callbacks::CallbackInterface;
use crate::enum_::Enum;
use crate::error::Error;
use crate::fold::{lemma_position, position};
use crate::function::Function;
use crate::object::Object;
use crate::record::Record;
use crate::text::str_eq;

verus! {

/// A declaration with a name.
pub trait Declaration {
    /// The name of the declaration.
    spec fn declared_name(&self) -> Seq<char>;

    /// The name of the declaration.
    fn name_ref(&self) -> (r: &str)
        ensures
            r@ == self.declared_name(),
    ;
}

/// The names of a list of declarations, in order.
pub open spec fn names_of<T: Declaration>(items: Seq<T>) -> Seq<Seq<char>> {
    items.map_values(|x: T| x.declared_name())
}

/// The place of the first declaration named `name`.
pub fn find_declaration<T: Declaration>(items: &Vec<T>, name: &str) -> (r: Option<usize>)
    ensures
        match r {
            Some(i) => i < items@.len() && position(names_of(items@), name@) == Some(i as int),
            None => position(names_of(items@), name@) is None,
        },
{
    let mut i: usize = 0;
    while i < items.len()
        invariant
            i <= items@.len(),
            forall|j: int| 0 <= j < i ==> names_of(items@)[j] != name@,
        decreases items@.len() - i,
    {
        if str_eq(items[i].name_ref(), name) {
            proof {
                assert(names_of(items@)[i as int] == name@);
                lemma_position(names_of(items@), name@);
            }
            return Some(i);
        }
        i += 1;
    }
    proof {
        lemma_position(names_of(items@), name@);
    }
    None
}

impl Declaration for Enum {
    open spec fn declared_name(&self) -> Seq<char> {
        self@.name
    }

    fn name_ref(&self) -> (r: &str) {
        self.name()
    }
}

impl Declaration for Record {
    open spec fn declared_name(&self) -> Seq<char> {
        self@.name
    }

    fn name_ref(&self) -> (r: &str) {
        self.name()
    }
}

impl Declaration for Function {
    open spec fn declared_name(&self) -> Seq<char> {
        self@.name
    }

    fn name_ref(&self) -> (r: &str) {
        self.name()
    }
}

impl Declaration for Object {
    open spec fn declared_name(&self) -> Seq<char> {
        self@.name
    }

    fn name_ref(&self) -> (r: &str) {
        self.name()
    }
}

impl Declaration for CallbackInterface {
    open spec fn declared_name(&self) -> Seq<char> {
        self@.name
    }

    fn name_ref(&self) -> (r: &str) {
        self.name()
    }
}

impl Declaration for Error {
    open spec fn declared_name(&self) -> Seq<char> {
        self@.name()
    }

    fn name_ref(&self) -> (r: &str) {
        self.name()
    }
}

} // verus!
