//! What of an interface goes into its checksum, and in what form.
//!
//! The checksum is a hash over the high-level content of an interface: the
//! names, members, types and attributes of its declarations. The derived
//! low-level functions are left out: their symbols hold the checksum, so they
//! cannot go into it. Each part is handed to the hasher as a list of byte strings,
//! which this module defines: a text is followed by a byte that no text holds, a
//! list is preceded by its length, and a choice by a tag.

use std::collections::hash_map::DefaultHasher;
use std::hash::Hasher;
use vstd::bytes::{spec_u64_to_le_bytes, u64_to_le_bytes};
use vstd::prelude::*;
use vstd::utf8::encode_utf8;
use crate::attributes::{
    attribute_models, ArgumentAttributes, Attribute, AttributeModel, ConstructorAttributes,
    EnumAttributes, FunctionAttributes, InterfaceAttributes, MethodAttributes, SelfType,
    TypedefAttributes,
};
use crate::callbacks::{CallbackInterface, CallbackInterfaceModel};
use crate::enum_::{Enum, EnumModel, Variant, VariantModel};
use crate::error::{Error, ErrorModel};
use crate::function::{Argument, ArgumentModel, Function, FunctionModel};
use crate::object::{Constructor, ConstructorModel, Method, MethodModel, Object, ObjectModel};
use crate::record::{Field, FieldModel, Record, RecordModel};
use crate::fold::{flat_map, lemma_flat_map_ends, lemma_flat_map_step, lemma_flat_map_views};
use crate::literal::{Literal, LiteralModel, Radix};
use crate::types::{Type, TypeModel};

verus! {

/// The byte strings that a hasher is handed.
pub type Writes = Seq<Seq<u8>>;

/// A tag: one byte.
pub open spec fn tag(b: u8) -> Writes {
    seq![seq![b]]
}

/// A text: its bytes, then a byte that no text holds.
pub open spec fn text(s: Seq<char>) -> Writes {
    seq![encode_utf8(s), seq![0xffu8]]
}

/// A number: its eight bytes, the lowest first.
pub open spec fn number(n: u64) -> Writes {
    seq![spec_u64_to_le_bytes(n)]
}

/// A truth value: one byte.
pub open spec fn flag(b: bool) -> Writes {
    tag(if b { 1u8 } else { 0u8 })
}

/// A list: its length, then its items in order.
pub open spec fn list<A>(items: Seq<A>, each: spec_fn(A) -> Writes) -> Writes {
    number(items.len() as u64) + flat_map(items, each)
}

/// Hands a tag to the hasher.
pub fn write_tag(state: &mut DefaultHasher, b: u8)
    ensures
        final(state)@ == old(state)@ + tag(b),
{
    let mut bytes: Vec<u8> = Vec::new();
    bytes.push(b);
    assert(bytes@ =~= seq![b]);
    state.write(bytes.as_slice());
    assert(state@ =~= old(state)@ + tag(b));
}

/// Hands a text to the hasher.
pub fn write_text(state: &mut DefaultHasher, s: &str)
    ensures
        final(state)@ == old(state)@ + text(s@),
{
    state.write(s.as_bytes());
    let mut end: Vec<u8> = Vec::new();
    end.push(0xffu8);
    assert(end@ =~= seq![0xffu8]);
    state.write(end.as_slice());
    assert(state@ =~= old(state)@ + text(s@));
}

/// Hands a number to the hasher.
pub fn write_number(state: &mut DefaultHasher, n: u64)
    ensures
        final(state)@ == old(state)@ + number(n),
{
    let bytes = u64_to_le_bytes(n);
    state.write(bytes.as_slice());
    assert(state@ =~= old(state)@ + number(n));
}

/// Hands a truth value to the hasher.
pub fn write_flag(state: &mut DefaultHasher, b: bool)
    ensures
        final(state)@ == old(state)@ + flag(b),
{
    write_tag(state, if b { 1 } else { 0 });
}

/// A part of an interface that goes into the checksum.
pub trait Checksummed {
    /// The byte strings that the part hands to a hasher.
    spec fn writes(&self) -> Writes;

    /// Hands the part to the hasher.
    fn hash(&self, state: &mut DefaultHasher)
        ensures
            final(state)@ == old(state)@ + self.writes(),
    ;
}

/// Hands a list to the hasher: its length, then its items in order.
pub fn hash_all<T: Checksummed>(items: &Vec<T>, state: &mut DefaultHasher)
    ensures
        final(state)@ == old(state)@ + list(items@, |x: T| x.writes()),
{
    let ghost each = |x: T| x.writes();
    let ghost start = state@;
    write_number(state, items.len() as u64);
    let mut i: usize = 0;
    proof {
        lemma_flat_map_ends(items@, each);
        assert(state@ =~= start + number(items@.len() as u64) + flat_map(items@.take(0), each));
    }
    while i < items.len()
        invariant
            i <= items@.len(),
            each == (|x: T| x.writes()),
            state@ == start + number(items@.len() as u64) + flat_map(items@.take(i as int), each),
        decreases items@.len() - i,
    {
        let ghost before = state@;
        items[i].hash(state);
        proof {
            lemma_flat_map_step(items@, each, i as int);
            assert(state@ =~= start + number(items@.len() as u64) + flat_map(
                items@.take(i as int + 1),
                each,
            ));
        }
        i += 1;
    }
    proof {
        lemma_flat_map_ends(items@, each);
        assert(state@ =~= start + list(items@, each));
    }
}

impl TypeModel {
    /// The byte strings that the type hands to a hasher: a tag for its shape,
    /// then its names and components.
    pub open spec fn writes(self) -> Writes
        decreases self,
    {
        match self {
            TypeModel::UInt8 => tag(0),
            TypeModel::Int8 => tag(1),
            TypeModel::UInt16 => tag(2),
            TypeModel::Int16 => tag(3),
            TypeModel::UInt32 => tag(4),
            TypeModel::Int32 => tag(5),
            TypeModel::UInt64 => tag(6),
            TypeModel::Int64 => tag(7),
            TypeModel::Float32 => tag(8),
            TypeModel::Float64 => tag(9),
            TypeModel::Boolean => tag(10),
            TypeModel::String => tag(11),
            TypeModel::Bytes => tag(12),
            TypeModel::Object(n) => tag(13) + text(n),
            TypeModel::Record(n) => tag(14) + text(n),
            TypeModel::Enum(n) => tag(15) + text(n),
            TypeModel::Error(n) => tag(16) + text(n),
            TypeModel::CallbackInterface(n) => tag(17) + text(n),
            TypeModel::Optional(t) => tag(18) + t.writes(),
            TypeModel::Sequence(t) => tag(19) + t.writes(),
            TypeModel::Mapping(k, v) => tag(20) + k.writes() + v.writes(),
            TypeModel::External { name, crate_name } => tag(21) + text(name) + text(crate_name),
            TypeModel::Custom { name, builtin } => tag(22) + text(name) + builtin.writes(),
        }
    }
}

/// The byte strings of an optional type: a tag, then the type if there is one.
pub open spec fn optional_type_writes(t: Option<TypeModel>) -> Writes {
    match t {
        Some(t) => tag(1) + t.writes(),
        None => tag(0),
    }
}

/// Hands a type to the hasher.
pub fn hash_type(t: &Type, state: &mut DefaultHasher)
    ensures
        final(state)@ == old(state)@ + t@.writes(),
    decreases t,
{
    let ghost start = state@;
    match t {
        Type::UInt8 => write_tag(state, 0),
        Type::Int8 => write_tag(state, 1),
        Type::UInt16 => write_tag(state, 2),
        Type::Int16 => write_tag(state, 3),
        Type::UInt32 => write_tag(state, 4),
        Type::Int32 => write_tag(state, 5),
        Type::UInt64 => write_tag(state, 6),
        Type::Int64 => write_tag(state, 7),
        Type::Float32 => write_tag(state, 8),
        Type::Float64 => write_tag(state, 9),
        Type::Boolean => write_tag(state, 10),
        Type::String => write_tag(state, 11),
        Type::Bytes => write_tag(state, 12),
        Type::Object(n) => {
            write_tag(state, 13);
            write_text(state, n.as_str());
        },
        Type::Record(n) => {
            write_tag(state, 14);
            write_text(state, n.as_str());
        },
        Type::Enum(n) => {
            write_tag(state, 15);
            write_text(state, n.as_str());
        },
        Type::Error(n) => {
            write_tag(state, 16);
            write_text(state, n.as_str());
        },
        Type::CallbackInterface(n) => {
            write_tag(state, 17);
            write_text(state, n.as_str());
        },
        Type::Optional(inner) => {
            write_tag(state, 18);
            hash_type(inner, state);
        },
        Type::Sequence(inner) => {
            write_tag(state, 19);
            hash_type(inner, state);
        },
        Type::Mapping(k, v) => {
            write_tag(state, 20);
            hash_type(k, state);
            hash_type(v, state);
        },
        Type::External { name, crate_name } => {
            write_tag(state, 21);
            write_text(state, name.as_str());
            write_text(state, crate_name.as_str());
        },
        Type::Custom { name, builtin } => {
            write_tag(state, 22);
            write_text(state, name.as_str());
            hash_type(builtin, state);
        },
    }
    assert(state@ =~= start + t@.writes());
}

/// Hands an optional type to the hasher.
pub fn hash_optional_type(t: &Option<Type>, state: &mut DefaultHasher)
    ensures
        final(state)@ == old(state)@ + optional_type_writes(crate::types::optional_model(*t)),
{
    let ghost start = state@;
    match t {
        Some(t) => {
            write_tag(state, 1);
            hash_type(t, state);
            assert(state@ =~= start + (tag(1) + t@.writes()));
        },
        None => {
            write_tag(state, 0);
        },
    }
}

impl Checksummed for Type {
    open spec fn writes(&self) -> Writes {
        self@.writes()
    }

    fn hash(&self, state: &mut DefaultHasher) {
        hash_type(self, state)
    }
}

impl Radix {
    /// The tag of the radix.
    pub open spec fn writes(self) -> Writes {
        tag(self.base_of())
    }
}

/// The size of a signed number, and whether it is negative.
pub open spec fn signed(n: i64) -> Writes {
    if n >= 0 {
        tag(0) + number(n as u64)
    } else {
        tag(1) + number((-(n + 1)) as u64)
    }
}

impl LiteralModel {
    /// The byte strings that the literal hands to a hasher.
    pub open spec fn writes(self) -> Writes {
        match self {
            LiteralModel::Boolean(b) => tag(0) + flag(b),
            LiteralModel::String(s) => tag(1) + text(s),
            LiteralModel::UInt(n, r, t) => tag(2) + number(n) + r.writes() + t.writes(),
            LiteralModel::Int(n, r, t) => tag(3) + signed(n) + r.writes() + t.writes(),
            LiteralModel::Float(s, t) => tag(4) + text(s) + t.writes(),
            LiteralModel::Enum(s, t) => tag(5) + text(s) + t.writes(),
            LiteralModel::EmptySequence => tag(6),
            LiteralModel::EmptyMap => tag(7),
            LiteralModel::Null => tag(8),
        }
    }
}

/// The byte strings of an optional literal: a tag, then the literal if there is one.
pub open spec fn optional_literal_writes(l: Option<LiteralModel>) -> Writes {
    match l {
        Some(l) => tag(1) + l.writes(),
        None => tag(0),
    }
}

impl Checksummed for Literal {
    open spec fn writes(&self) -> Writes {
        self@.writes()
    }

    fn hash(&self, state: &mut DefaultHasher) {
        let ghost start = state@;
        match self {
            Literal::Boolean(b) => {
                write_tag(state, 0);
                write_flag(state, *b);
            },
            Literal::String(s) => {
                write_tag(state, 1);
                write_text(state, s.as_str());
            },
            Literal::UInt(n, r, t) => {
                write_tag(state, 2);
                write_number(state, *n);
                write_tag(state, r.base());
                hash_type(t, state);
            },
            Literal::Int(n, r, t) => {
                write_tag(state, 3);
                if *n >= 0 {
                    write_tag(state, 0);
                    write_number(state, *n as u64);
                } else {
                    write_tag(state, 1);
                    write_number(state, (-(*n + 1)) as u64);
                }
                write_tag(state, r.base());
                hash_type(t, state);
            },
            Literal::Float(s, t) => {
                write_tag(state, 4);
                write_text(state, s.as_str());
                hash_type(t, state);
            },
            Literal::Enum(s, t) => {
                write_tag(state, 5);
                write_text(state, s.as_str());
                hash_type(t, state);
            },
            Literal::EmptySequence => write_tag(state, 6),
            Literal::EmptyMap => write_tag(state, 7),
            Literal::Null => write_tag(state, 8),
        }
        assert(state@ =~= start + self@.writes());
    }
}

/// Hands an optional literal to the hasher.
pub fn hash_optional_literal(l: &Option<Literal>, state: &mut DefaultHasher)
    ensures
        final(state)@ == old(state)@ + optional_literal_writes(crate::literal::default_model(*l)),
{
    let ghost start = state@;
    match l {
        Some(l) => {
            write_tag(state, 1);
            l.hash(state);
            assert(state@ =~= start + (tag(1) + l@.writes()));
        },
        None => {
            write_tag(state, 0);
        },
    }
}

impl AttributeModel {
    /// The byte strings that the attribute hands to a hasher.
    pub open spec fn writes(self) -> Writes {
        match self {
            AttributeModel::ByRef => tag(0),
            AttributeModel::Enum => tag(1),
            AttributeModel::Error => tag(2),
            AttributeModel::Name(n) => tag(3) + text(n),
            AttributeModel::SelfType(SelfType::ByArc) => tag(4),
            AttributeModel::Threadsafe => tag(5),
            AttributeModel::Throws(n) => tag(6) + text(n),
            AttributeModel::External(n) => tag(7) + text(n),
            AttributeModel::Custom => tag(8),
        }
    }
}

/// The byte strings of a list of attributes.
pub open spec fn attribute_writes(attrs: Seq<AttributeModel>) -> Writes {
    list(attrs, |a: AttributeModel| a.writes())
}

impl Checksummed for Attribute {
    open spec fn writes(&self) -> Writes {
        self@.writes()
    }

    fn hash(&self, state: &mut DefaultHasher) {
        let ghost start = state@;
        match self {
            Attribute::ByRef => write_tag(state, 0),
            Attribute::Enum => write_tag(state, 1),
            Attribute::Error => write_tag(state, 2),
            Attribute::Name(n) => {
                write_tag(state, 3);
                write_text(state, n.as_str());
            },
            Attribute::SelfType(SelfType::ByArc) => write_tag(state, 4),
            Attribute::Threadsafe => write_tag(state, 5),
            Attribute::Throws(n) => {
                write_tag(state, 6);
                write_text(state, n.as_str());
            },
            Attribute::External(n) => {
                write_tag(state, 7);
                write_text(state, n.as_str());
            },
            Attribute::Custom => write_tag(state, 8),
        }
        assert(state@ =~= start + self@.writes());
    }
}

/// Hands a list of attributes to the hasher.
pub fn hash_attributes(attrs: &Vec<Attribute>, state: &mut DefaultHasher)
    ensures
        final(state)@ == old(state)@ + attribute_writes(attribute_models(attrs@)),
{
    proof {
        lemma_flat_map_views(
            attrs@,
            |a: Attribute| a@,
            |a: AttributeModel| a.writes(),
            |a: Attribute| a.writes(),
        );
    }
    hash_all(attrs, state);
}


impl FieldModel {
    /// The byte strings that the field hands to a hasher.
    pub open spec fn writes(self) -> Writes {
        text(self.name) + self.type_.writes() + flag(self.required) + optional_literal_writes(self.default)
    }
}

impl Checksummed for Field {
    open spec fn writes(&self) -> Writes {
        self@.writes()
    }

    fn hash(&self, state: &mut DefaultHasher) {
        let ghost start = state@;
        write_text(state, self.name.as_str());
        hash_type(&self.type_, state);
        write_flag(state, self.required);
        hash_optional_literal(&self.default, state);
        assert(state@ =~= start + self@.writes());
    }
}

impl RecordModel {
    /// The byte strings that the record hands to a hasher.
    pub open spec fn writes(self) -> Writes {
        text(self.name) + list(self.fields, |x: FieldModel| x.writes())
    }
}

impl Checksummed for Record {
    open spec fn writes(&self) -> Writes {
        self@.writes()
    }

    fn hash(&self, state: &mut DefaultHasher) {
        let ghost start = state@;
        proof {
            lemma_flat_map_views(
                self.fields@,
                |x: Field| x@,
                |x: FieldModel| x.writes(),
                |x: Field| x.writes(),
            );
        }
        write_text(state, self.name.as_str());
        hash_all(&self.fields, state);
        assert(state@ =~= start + self@.writes());
    }
}

impl VariantModel {
    /// The byte strings that the variant hands to a hasher.
    pub open spec fn writes(self) -> Writes {
        text(self.name) + list(self.fields, |x: FieldModel| x.writes())
    }
}

impl Checksummed for Variant {
    open spec fn writes(&self) -> Writes {
        self@.writes()
    }

    fn hash(&self, state: &mut DefaultHasher) {
        let ghost start = state@;
        proof {
            lemma_flat_map_views(
                self.fields@,
                |x: Field| x@,
                |x: FieldModel| x.writes(),
                |x: Field| x.writes(),
            );
        }
        write_text(state, self.name.as_str());
        hash_all(&self.fields, state);
        assert(state@ =~= start + self@.writes());
    }
}

impl EnumModel {
    /// The byte strings that the enum hands to a hasher.
    pub open spec fn writes(self) -> Writes {
        text(self.name) + list(self.variants, |x: VariantModel| x.writes())
    }
}

impl Checksummed for Enum {
    open spec fn writes(&self) -> Writes {
        self@.writes()
    }

    fn hash(&self, state: &mut DefaultHasher) {
        let ghost start = state@;
        proof {
            lemma_flat_map_views(
                self.variants@,
                |x: Variant| x@,
                |x: VariantModel| x.writes(),
                |x: Variant| x.writes(),
            );
        }
        write_text(state, self.name.as_str());
        hash_all(&self.variants, state);
        assert(state@ =~= start + self@.writes());
    }
}

impl ArgumentModel {
    /// The byte strings that the argument hands to a hasher.
    pub open spec fn writes(self) -> Writes {
        text(self.name) + self.type_.writes() + flag(self.by_ref) + flag(self.optional) + optional_literal_writes(self.default)
    }
}

impl Checksummed for Argument {
    open spec fn writes(&self) -> Writes {
        self@.writes()
    }

    fn hash(&self, state: &mut DefaultHasher) {
        let ghost start = state@;
        write_text(state, self.name.as_str());
        hash_type(&self.type_, state);
        write_flag(state, self.by_ref);
        write_flag(state, self.optional);
        hash_optional_literal(&self.default, state);
        assert(state@ =~= start + self@.writes());
    }
}

impl FunctionModel {
    /// The byte strings that the function hands to a hasher. Its low-level function is no part of them.
    pub open spec fn writes(self) -> Writes {
        text(self.name) + list(self.arguments, |x: ArgumentModel| x.writes()) + optional_type_writes(self.return_type) + attribute_writes(self.attributes)
    }
}

impl Checksummed for Function {
    open spec fn writes(&self) -> Writes {
        self@.writes()
    }

    fn hash(&self, state: &mut DefaultHasher) {
        let ghost start = state@;
        proof {
            lemma_flat_map_views(
                self.arguments@,
                |x: Argument| x@,
                |x: ArgumentModel| x.writes(),
                |x: Argument| x.writes(),
            );
        }
        write_text(state, self.name.as_str());
        hash_all(&self.arguments, state);
        hash_optional_type(&self.return_type, state);
        hash_attributes(&self.attributes.0, state);
        assert(state@ =~= start + self@.writes());
    }
}

impl ConstructorModel {
    /// The byte strings that the constructor hands to a hasher. Its low-level function is no part of them.
    pub open spec fn writes(self) -> Writes {
        text(self.name) + list(self.arguments, |x: ArgumentModel| x.writes()) + attribute_writes(self.attributes)
    }
}

impl Checksummed for Constructor {
    open spec fn writes(&self) -> Writes {
        self@.writes()
    }

    fn hash(&self, state: &mut DefaultHasher) {
        let ghost start = state@;
        proof {
            lemma_flat_map_views(
                self.arguments@,
                |x: Argument| x@,
                |x: ArgumentModel| x.writes(),
                |x: Argument| x.writes(),
            );
        }
        write_text(state, self.name.as_str());
        hash_all(&self.arguments, state);
        hash_attributes(&self.attributes.0, state);
        assert(state@ =~= start + self@.writes());
    }
}

impl MethodModel {
    /// The byte strings that the method hands to a hasher. Its low-level function is no part of them.
    pub open spec fn writes(self) -> Writes {
        text(self.name) + text(self.object_name) + list(self.arguments, |x: ArgumentModel| x.writes()) + optional_type_writes(self.return_type) + attribute_writes(self.attributes)
    }
}

impl Checksummed for Method {
    open spec fn writes(&self) -> Writes {
        self@.writes()
    }

    fn hash(&self, state: &mut DefaultHasher) {
        let ghost start = state@;
        proof {
            lemma_flat_map_views(
                self.arguments@,
                |x: Argument| x@,
                |x: ArgumentModel| x.writes(),
                |x: Argument| x.writes(),
            );
        }
        write_text(state, self.name.as_str());
        write_text(state, self.object_name.as_str());
        hash_all(&self.arguments, state);
        hash_optional_type(&self.return_type, state);
        hash_attributes(&self.attributes.0, state);
        assert(state@ =~= start + self@.writes());
    }
}

impl ObjectModel {
    /// The byte strings that the object hands to a hasher. Its low-level functions are no part of them.
    pub open spec fn writes(self) -> Writes {
        text(self.name) + list(self.constructors, |x: ConstructorModel| x.writes()) + list(self.methods, |x: MethodModel| x.writes()) + flag(self.uses_deprecated_threadsafe_attribute)
    }
}

impl Checksummed for Object {
    open spec fn writes(&self) -> Writes {
        self@.writes()
    }

    fn hash(&self, state: &mut DefaultHasher) {
        let ghost start = state@;
        proof {
            lemma_flat_map_views(
                self.constructors@,
                |x: Constructor| x@,
                |x: ConstructorModel| x.writes(),
                |x: Constructor| x.writes(),
            );
            lemma_flat_map_views(
                self.methods@,
                |x: Method| x@,
                |x: MethodModel| x.writes(),
                |x: Method| x.writes(),
            );
        }
        write_text(state, self.name.as_str());
        hash_all(&self.constructors, state);
        hash_all(&self.methods, state);
        write_flag(state, self.uses_deprecated_threadsafe_attribute);
        assert(state@ =~= start + self@.writes());
    }
}

impl CallbackInterfaceModel {
    /// The byte strings that the callback interface hands to a hasher. Its low-level function is no part of them.
    pub open spec fn writes(self) -> Writes {
        text(self.name) + list(self.methods, |x: MethodModel| x.writes())
    }
}

impl Checksummed for CallbackInterface {
    open spec fn writes(&self) -> Writes {
        self@.writes()
    }

    fn hash(&self, state: &mut DefaultHasher) {
        let ghost start = state@;
        proof {
            lemma_flat_map_views(
                self.methods@,
                |x: Method| x@,
                |x: MethodModel| x.writes(),
                |x: Method| x.writes(),
            );
        }
        write_text(state, self.name.as_str());
        hash_all(&self.methods, state);
        assert(state@ =~= start + self@.writes());
    }
}

impl ErrorModel {
    /// The byte strings that the error family hands to a hasher.
    pub open spec fn writes(self) -> Writes {
        self.enum_.writes()
    }
}

impl Checksummed for Error {
    open spec fn writes(&self) -> Writes {
        self@.writes()
    }

    fn hash(&self, state: &mut DefaultHasher) {
        self.enum_.hash(state);
    }
}

} // verus!
