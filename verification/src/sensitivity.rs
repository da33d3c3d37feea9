//! The checksum reads the whole content: interfaces that differ in a name, a
//! type or an attribute hand different byte strings to the hasher. That their
//! checksums then differ rests on the hash, and holds but for a collision.

use vstd::bytes::{lemma_auto_spec_u64_to_from_le_bytes, spec_u64_to_le_bytes};
use vstd::prelude::*;
use vstd::utf8::{encode_utf8, encode_utf8_decode_utf8};
use crate::attributes::{attribute_models, Attribute, AttributeModel};
use crate::callbacks::CallbackInterfaceModel;
use crate::checksum::{
    attribute_writes, flag, list, number, optional_literal_writes, optional_type_writes, signed,
    tag, text, Writes,
};
use crate::enum_::{Enum, EnumModel, VariantModel};
use crate::error::ErrorModel;
use crate::fold::flat_map;
use crate::function::{argument_models, Argument, ArgumentModel, FunctionModel};
use crate::interface::{ComponentInterface, InterfaceModel};
use crate::object::{
    method_models, ConstructorModel, Method, MethodModel, Object, ObjectModel,
};
use crate::record::{FieldModel, RecordModel};
use crate::literal::{LiteralModel, Radix};
use crate::types::TypeModel;

verus! {

/// Byte strings of equal number at the front of equal lists are equal, and so
/// is what follows them.
pub proof fn lemma_cut(front: Writes, other: Writes, rest: Writes, more: Writes)
    requires
        front.len() == other.len(),
        front + rest == other + more,
    ensures
        front == other,
        rest == more,
{
    let n = front.len() as int;
    assert((front + rest).take(n) =~= front);
    assert((other + more).take(n) =~= other);
    assert((front + rest).skip(n) =~= rest);
    assert((other + more).skip(n) =~= more);
}

/// A tag is read back from the front of a list of byte strings.
pub proof fn lemma_tag(a: u8, b: u8, rest: Writes, more: Writes)
    requires
        tag(a) + rest == tag(b) + more,
    ensures
        a == b,
        rest == more,
{
    lemma_cut(tag(a), tag(b), rest, more);
    assert(tag(a)[0][0] == a);
    assert(tag(b)[0][0] == b);
}

/// A truth value is read back from the front of a list of byte strings.
pub proof fn lemma_flag(a: bool, b: bool, rest: Writes, more: Writes)
    requires
        flag(a) + rest == flag(b) + more,
    ensures
        a == b,
        rest == more,
{
    lemma_tag(if a { 1u8 } else { 0u8 }, if b { 1u8 } else { 0u8 }, rest, more);
}

/// A text is read back from the front of a list of byte strings.
pub proof fn lemma_text(a: Seq<char>, b: Seq<char>, rest: Writes, more: Writes)
    requires
        text(a) + rest == text(b) + more,
    ensures
        a == b,
        rest == more,
{
    lemma_cut(text(a), text(b), rest, more);
    assert(text(a)[0] == encode_utf8(a));
    assert(text(b)[0] == encode_utf8(b));
    encode_utf8_decode_utf8(a);
    encode_utf8_decode_utf8(b);
}

/// A number is read back from the front of a list of byte strings.
pub proof fn lemma_number(a: u64, b: u64, rest: Writes, more: Writes)
    requires
        number(a) + rest == number(b) + more,
    ensures
        a == b,
        rest == more,
{
    lemma_cut(number(a), number(b), rest, more);
    assert(number(a)[0] == spec_u64_to_le_bytes(a));
    assert(number(b)[0] == spec_u64_to_le_bytes(b));
    lemma_auto_spec_u64_to_from_le_bytes();
}

/// The tag that stands for the shape of a type.
pub open spec fn type_tag(t: TypeModel) -> u8 {
    match t {
        TypeModel::UInt8 => 0,
        TypeModel::Int8 => 1,
        TypeModel::UInt16 => 2,
        TypeModel::Int16 => 3,
        TypeModel::UInt32 => 4,
        TypeModel::Int32 => 5,
        TypeModel::UInt64 => 6,
        TypeModel::Int64 => 7,
        TypeModel::Float32 => 8,
        TypeModel::Float64 => 9,
        TypeModel::Boolean => 10,
        TypeModel::String => 11,
        TypeModel::Bytes => 12,
        TypeModel::Object(_) => 13,
        TypeModel::Record(_) => 14,
        TypeModel::Enum(_) => 15,
        TypeModel::Error(_) => 16,
        TypeModel::CallbackInterface(_) => 17,
        TypeModel::Optional(_) => 18,
        TypeModel::Sequence(_) => 19,
        TypeModel::Mapping(_, _) => 20,
        TypeModel::External { .. } => 21,
        TypeModel::Custom { .. } => 22,
    }
}

/// What a type hands to a hasher after its tag.
pub open spec fn type_body(t: TypeModel) -> Writes {
    match t {
        TypeModel::Object(n) => text(n),
        TypeModel::Record(n) => text(n),
        TypeModel::Enum(n) => text(n),
        TypeModel::Error(n) => text(n),
        TypeModel::CallbackInterface(n) => text(n),
        TypeModel::Optional(t) => t.writes(),
        TypeModel::Sequence(t) => t.writes(),
        TypeModel::Mapping(k, v) => k.writes() + v.writes(),
        TypeModel::External { name, crate_name } => text(name) + text(crate_name),
        TypeModel::Custom { name, builtin } => text(name) + builtin.writes(),
        _ => Seq::empty(),
    }
}

/// What a type hands to a hasher is its tag, and then its body.
pub proof fn lemma_type_parts(t: TypeModel)
    ensures
        t.writes() == tag(type_tag(t)) + type_body(t),
{
    assert(t.writes() =~= tag(type_tag(t)) + type_body(t));
}

/// A type is read back from the front of a list of byte strings.
pub proof fn lemma_type(x: TypeModel, y: TypeModel, rest: Writes, more: Writes)
    requires
        x.writes() + rest == y.writes() + more,
    ensures
        x == y,
        rest == more,
    decreases x,
{
    lemma_type_parts(x);
    lemma_type_parts(y);
    let bx = type_body(x);
    let by = type_body(y);
    assert(x.writes() + rest =~= tag(type_tag(x)) + (bx + rest));
    assert(y.writes() + more =~= tag(type_tag(y)) + (by + more));
    lemma_tag(type_tag(x), type_tag(y), bx + rest, by + more);
    match x {
        TypeModel::Object(n) => {
            lemma_text(n, y->Object_0, rest, more);
        },
        TypeModel::Record(n) => {
            lemma_text(n, y->Record_0, rest, more);
        },
        TypeModel::Enum(n) => {
            lemma_text(n, y->Enum_0, rest, more);
        },
        TypeModel::Error(n) => {
            lemma_text(n, y->Error_0, rest, more);
        },
        TypeModel::CallbackInterface(n) => {
            lemma_text(n, y->CallbackInterface_0, rest, more);
        },
        TypeModel::Optional(t) => {
            lemma_type(*t, *y->Optional_0, rest, more);
        },
        TypeModel::Sequence(t) => {
            lemma_type(*t, *y->Sequence_0, rest, more);
        },
        TypeModel::Mapping(k, v) => {
            let yk = *y->Mapping_0;
            let yv = *y->Mapping_1;
            assert(bx + rest =~= k.writes() + (v.writes() + rest));
            assert(by + more =~= yk.writes() + (yv.writes() + more));
            lemma_type(*k, yk, v.writes() + rest, yv.writes() + more);
            lemma_type(*v, yv, rest, more);
        },
        TypeModel::External { name, crate_name } => {
            let yn = y->External_name;
            let yc = y->External_crate_name;
            assert(bx + rest =~= text(name) + (text(crate_name) + rest));
            assert(by + more =~= text(yn) + (text(yc) + more));
            lemma_text(name, yn, text(crate_name) + rest, text(yc) + more);
            lemma_text(crate_name, yc, rest, more);
        },
        TypeModel::Custom { name, builtin } => {
            let yn = y->Custom_name;
            let yb = *y->Custom_builtin;
            assert(bx + rest =~= text(name) + (builtin.writes() + rest));
            assert(by + more =~= text(yn) + (yb.writes() + more));
            lemma_text(name, yn, builtin.writes() + rest, yb.writes() + more);
            lemma_type(*builtin, yb, rest, more);
        },
        _ => {
            assert(bx + rest =~= rest);
            assert(by + more =~= more);
        },
    }
}

/// An optional type is read back from the front of a list of byte strings.
pub proof fn lemma_optional_type(
    x: Option<TypeModel>,
    y: Option<TypeModel>,
    rest: Writes,
    more: Writes,
)
    requires
        optional_type_writes(x) + rest == optional_type_writes(y) + more,
    ensures
        x == y,
        rest == more,
{
    let bx = match x {
        Some(t) => t.writes(),
        None => Seq::empty(),
    };
    let by = match y {
        Some(t) => t.writes(),
        None => Seq::empty(),
    };
    let tx = if x is Some { 1u8 } else { 0u8 };
    let ty = if y is Some { 1u8 } else { 0u8 };
    assert(optional_type_writes(x) + rest =~= tag(tx) + (bx + rest));
    assert(optional_type_writes(y) + more =~= tag(ty) + (by + more));
    lemma_tag(tx, ty, bx + rest, by + more);
    if x is Some {
        lemma_type(x->0, y->0, rest, more);
    } else {
        assert(bx + rest =~= rest);
        assert(by + more =~= more);
    }
}

/// The tag that stands for the shape of a literal.
pub open spec fn literal_tag(l: LiteralModel) -> u8 {
    match l {
        LiteralModel::Boolean(_) => 0,
        LiteralModel::String(_) => 1,
        LiteralModel::UInt(_, _, _) => 2,
        LiteralModel::Int(_, _, _) => 3,
        LiteralModel::Float(_, _) => 4,
        LiteralModel::Enum(_, _) => 5,
        LiteralModel::EmptySequence => 6,
        LiteralModel::EmptyMap => 7,
        LiteralModel::Null => 8,
    }
}

/// What a literal hands to a hasher after its tag.
pub open spec fn literal_body(l: LiteralModel) -> Writes {
    match l {
        LiteralModel::Boolean(b) => flag(b),
        LiteralModel::String(s) => text(s),
        LiteralModel::UInt(n, r, t) => number(n) + (r.writes() + t.writes()),
        LiteralModel::Int(n, r, t) => signed(n) + (r.writes() + t.writes()),
        LiteralModel::Float(s, t) => text(s) + t.writes(),
        LiteralModel::Enum(s, t) => text(s) + t.writes(),
        _ => Seq::empty(),
    }
}

/// A radix is read back from the front of a list of byte strings.
pub proof fn lemma_radix(x: Radix, y: Radix, rest: Writes, more: Writes)
    requires
        x.writes() + rest == y.writes() + more,
    ensures
        x == y,
        rest == more,
{
    lemma_tag(x.base_of(), y.base_of(), rest, more);
}

/// A signed number is read back from the front of a list of byte strings.
pub proof fn lemma_signed(x: i64, y: i64, rest: Writes, more: Writes)
    requires
        signed(x) + rest == signed(y) + more,
    ensures
        x == y,
        rest == more,
{
    let tx = if x >= 0 { 0u8 } else { 1u8 };
    let ty = if y >= 0 { 0u8 } else { 1u8 };
    let nx = if x >= 0 { x as u64 } else { (-(x + 1)) as u64 };
    let ny = if y >= 0 { y as u64 } else { (-(y + 1)) as u64 };
    assert(signed(x) + rest =~= tag(tx) + (number(nx) + rest));
    assert(signed(y) + more =~= tag(ty) + (number(ny) + more));
    lemma_tag(tx, ty, number(nx) + rest, number(ny) + more);
    lemma_number(nx, ny, rest, more);
}

/// A radix and a type are read back from the front of a list of byte strings.
pub proof fn lemma_radix_type(
    r: Radix,
    t: TypeModel,
    yr: Radix,
    yt: TypeModel,
    rest: Writes,
    more: Writes,
)
    requires
        r.writes() + (t.writes() + rest) == yr.writes() + (yt.writes() + more),
    ensures
        r == yr,
        t == yt,
        rest == more,
{
    lemma_radix(r, yr, t.writes() + rest, yt.writes() + more);
    lemma_type(t, yt, rest, more);
}

/// A text and a type are read back from the front of a list of byte strings.
pub proof fn lemma_text_type(
    n: Seq<char>,
    t: TypeModel,
    yn: Seq<char>,
    yt: TypeModel,
    rest: Writes,
    more: Writes,
)
    requires
        text(n) + (t.writes() + rest) == text(yn) + (yt.writes() + more),
    ensures
        n == yn,
        t == yt,
        rest == more,
{
    lemma_text(n, yn, t.writes() + rest, yt.writes() + more);
    lemma_type(t, yt, rest, more);
}

/// What a literal hands to a hasher is its tag, and then its body.
pub proof fn lemma_literal_parts(l: LiteralModel, rest: Writes)
    ensures
        l.writes() + rest == tag(literal_tag(l)) + (literal_body(l) + rest),
{
    assert(l.writes() + rest =~= tag(literal_tag(l)) + (literal_body(l) + rest));
}

/// What follows two lists of byte strings follows the second of them.
pub proof fn lemma_assoc(a: Writes, b: Writes, rest: Writes)
    ensures
        (a + b) + rest == a + (b + rest),
{
    assert((a + b) + rest =~= a + (b + rest));
}

/// Nothing, and then what follows, is what follows.
pub proof fn lemma_nothing(rest: Writes)
    ensures
        Seq::<Seq<u8>>::empty() + rest == rest,
{
    assert(Seq::<Seq<u8>>::empty() + rest =~= rest);
}

/// An unsigned literal is read back from the front of a list of byte strings.
proof fn lemma_literal_uint(x: LiteralModel, y: LiteralModel, rest: Writes, more: Writes)
    requires
        x is UInt,
        y is UInt,
        literal_body(x) + rest == literal_body(y) + more,
    ensures
        x == y,
        rest == more,
{
    let (n, r, t) = (x->UInt_0, x->UInt_1, x->UInt_2);
    let (yn, yr, yt) = (y->UInt_0, y->UInt_1, y->UInt_2);
    lemma_assoc(number(n), r.writes() + t.writes(), rest);
    lemma_assoc(r.writes(), t.writes(), rest);
    lemma_assoc(number(yn), yr.writes() + yt.writes(), more);
    lemma_assoc(yr.writes(), yt.writes(), more);
    lemma_number(n, yn, r.writes() + (t.writes() + rest), yr.writes() + (yt.writes() + more));
    lemma_radix_type(r, t, yr, yt, rest, more);
}

/// A signed literal is read back from the front of a list of byte strings.
proof fn lemma_literal_int(x: LiteralModel, y: LiteralModel, rest: Writes, more: Writes)
    requires
        x is Int,
        y is Int,
        literal_body(x) + rest == literal_body(y) + more,
    ensures
        x == y,
        rest == more,
{
    let (n, r, t) = (x->Int_0, x->Int_1, x->Int_2);
    let (yn, yr, yt) = (y->Int_0, y->Int_1, y->Int_2);
    lemma_assoc(signed(n), r.writes() + t.writes(), rest);
    lemma_assoc(r.writes(), t.writes(), rest);
    lemma_assoc(signed(yn), yr.writes() + yt.writes(), more);
    lemma_assoc(yr.writes(), yt.writes(), more);
    lemma_signed(n, yn, r.writes() + (t.writes() + rest), yr.writes() + (yt.writes() + more));
    lemma_radix_type(r, t, yr, yt, rest, more);
}

/// A literal that is a text with a type is read back from the front of a list
/// of byte strings.
proof fn lemma_literal_text(x: LiteralModel, y: LiteralModel, rest: Writes, more: Writes)
    requires
        (x is Float && y is Float) || (x is Enum && y is Enum),
        literal_body(x) + rest == literal_body(y) + more,
    ensures
        x == y,
        rest == more,
{
    if x is Float {
        let (t, ty) = (x->Float_0, x->Float_1);
        let (yt, yty) = (y->Float_0, y->Float_1);
        lemma_assoc(text(t), ty.writes(), rest);
        lemma_assoc(text(yt), yty.writes(), more);
        lemma_text_type(t, ty, yt, yty, rest, more);
    } else {
        let (t, ty) = (x->Enum_0, x->Enum_1);
        let (yt, yty) = (y->Enum_0, y->Enum_1);
        lemma_assoc(text(t), ty.writes(), rest);
        lemma_assoc(text(yt), yty.writes(), more);
        lemma_text_type(t, ty, yt, yty, rest, more);
    }
}

/// A literal of a known shape is read back from the front of a list of byte strings.
pub proof fn lemma_literal_body(x: LiteralModel, y: LiteralModel, rest: Writes, more: Writes)
    requires
        literal_tag(x) == literal_tag(y),
        literal_body(x) + rest == literal_body(y) + more,
    ensures
        x == y,
        rest == more,
{
    match x {
        LiteralModel::Boolean(b) => {
            lemma_flag(b, y->Boolean_0, rest, more);
        },
        LiteralModel::String(t) => {
            lemma_text(t, y->String_0, rest, more);
        },
        LiteralModel::UInt(_, _, _) => {
            lemma_literal_uint(x, y, rest, more);
        },
        LiteralModel::Int(_, _, _) => {
            lemma_literal_int(x, y, rest, more);
        },
        LiteralModel::Float(_, _) => {
            lemma_literal_text(x, y, rest, more);
        },
        LiteralModel::Enum(_, _) => {
            lemma_literal_text(x, y, rest, more);
        },
        _ => {
            lemma_nothing(rest);
            lemma_nothing(more);
        },
    }
}

/// A literal is read back from the front of a list of byte strings.
pub proof fn lemma_literal(x: LiteralModel, y: LiteralModel, rest: Writes, more: Writes)
    requires
        x.writes() + rest == y.writes() + more,
    ensures
        x == y,
        rest == more,
{
    lemma_literal_parts(x, rest);
    lemma_literal_parts(y, more);
    lemma_tag(
        literal_tag(x),
        literal_tag(y),
        literal_body(x) + rest,
        literal_body(y) + more,
    );
    lemma_literal_body(x, y, rest, more);
}

/// An optional literal is read back from the front of a list of byte strings.
pub proof fn lemma_optional_literal(
    x: Option<LiteralModel>,
    y: Option<LiteralModel>,
    rest: Writes,
    more: Writes,
)
    requires
        optional_literal_writes(x) + rest == optional_literal_writes(y) + more,
    ensures
        x == y,
        rest == more,
{
    let bx = match x {
        Some(l) => l.writes(),
        None => Seq::empty(),
    };
    let by = match y {
        Some(l) => l.writes(),
        None => Seq::empty(),
    };
    let tx = if x is Some { 1u8 } else { 0u8 };
    let ty = if y is Some { 1u8 } else { 0u8 };
    assert(optional_literal_writes(x) + rest =~= tag(tx) + (bx + rest));
    assert(optional_literal_writes(y) + more =~= tag(ty) + (by + more));
    lemma_tag(tx, ty, bx + rest, by + more);
    if x is Some {
        lemma_literal(x->0, y->0, rest, more);
    } else {
        assert(bx + rest =~= rest);
        assert(by + more =~= more);
    }
}

/// The tag that stands for the shape of an attribute.
pub open spec fn attribute_tag(a: AttributeModel) -> u8 {
    match a {
        AttributeModel::ByRef => 0,
        AttributeModel::Enum => 1,
        AttributeModel::Error => 2,
        AttributeModel::Name(_) => 3,
        AttributeModel::SelfType(_) => 4,
        AttributeModel::Threadsafe => 5,
        AttributeModel::Throws(_) => 6,
        AttributeModel::External(_) => 7,
        AttributeModel::Custom => 8,
    }
}

/// What an attribute hands to a hasher after its tag.
pub open spec fn attribute_body(a: AttributeModel) -> Writes {
    match a {
        AttributeModel::Name(n) => text(n),
        AttributeModel::Throws(n) => text(n),
        AttributeModel::External(n) => text(n),
        _ => Seq::empty(),
    }
}

/// An attribute is read back from the front of a list of byte strings.
pub proof fn lemma_attribute(x: AttributeModel, y: AttributeModel, rest: Writes, more: Writes)
    requires
        x.writes() + rest == y.writes() + more,
    ensures
        x == y,
        rest == more,
{
    let bx = attribute_body(x);
    let by = attribute_body(y);
    assert(x.writes() + rest =~= tag(attribute_tag(x)) + (bx + rest));
    assert(y.writes() + more =~= tag(attribute_tag(y)) + (by + more));
    lemma_tag(attribute_tag(x), attribute_tag(y), bx + rest, by + more);
    match x {
        AttributeModel::Name(n) => {
            lemma_text(n, y->Name_0, rest, more);
        },
        AttributeModel::Throws(n) => {
            lemma_text(n, y->Throws_0, rest, more);
        },
        AttributeModel::External(n) => {
            lemma_text(n, y->External_0, rest, more);
        },
        _ => {
            assert(bx + rest =~= rest);
            assert(by + more =~= more);
        },
    }
}

/// A list of byte strings, and what follows it.
pub open spec fn glue(front: Writes, rest: Writes) -> Writes {
    front + rest
}

/// Whether a length can be written as a number.
pub open spec fn fits(n: nat) -> bool {
    n <= u64::MAX
}

/// What the items of a list yield is what the first yields, and then what the
/// others yield.
pub proof fn lemma_flat_map_front<A>(items: Seq<A>, each: spec_fn(A) -> Writes)
    requires
        items.len() > 0,
    ensures
        flat_map(items, each) == each(items[0]) + flat_map(items.drop_first(), each),
    decreases items.len(),
{
    if items.len() == 1 {
        assert(items.drop_last() =~= Seq::<A>::empty());
        assert(items.drop_first() =~= Seq::<A>::empty());
        assert(flat_map(items, each) =~= each(items[0]) + flat_map(items.drop_first(), each));
    } else {
        let front = items.drop_last();
        lemma_flat_map_front(front, each);
        assert(front.drop_first() =~= items.drop_first().drop_last());
        assert(items.drop_first().last() == items.last());
        assert(flat_map(items, each) =~= each(items[0]) + flat_map(items.drop_first(), each));
    }
}

/// The items of a list are read back from the front of a list of byte strings,
/// where each of them is, as far as `same` tells items apart.
pub proof fn lemma_items<A>(
    xs: Seq<A>,
    ys: Seq<A>,
    each: spec_fn(A) -> Writes,
    ok: spec_fn(A) -> bool,
    same: spec_fn(A, A) -> bool,
    rest: Writes,
    more: Writes,
)
    requires
        xs.len() == ys.len(),
        flat_map(xs, each) + rest == flat_map(ys, each) + more,
        forall|i: int| 0 <= i < xs.len() ==> ok(#[trigger] xs[i]),
        forall|i: int| 0 <= i < ys.len() ==> ok(#[trigger] ys[i]),
        forall|x: A, y: A, r: Writes, s: Writes|
            ok(x) && ok(y) && #[trigger] glue(each(x), r) == #[trigger] glue(each(y), s) ==> same(
                x,
                y,
            ) && r == s,
    ensures
        forall|i: int| 0 <= i < xs.len() ==> same(#[trigger] xs[i], ys[i]),
        rest == more,
    decreases xs.len(),
{
    if xs.len() == 0 {
        assert(flat_map(xs, each) + rest =~= rest);
        assert(flat_map(ys, each) + more =~= more);
    } else {
        lemma_flat_map_front(xs, each);
        lemma_flat_map_front(ys, each);
        let xt = xs.drop_first();
        let yt = ys.drop_first();
        let r = flat_map(xt, each) + rest;
        let s = flat_map(yt, each) + more;
        assert(flat_map(xs, each) + rest =~= glue(each(xs[0]), r));
        assert(flat_map(ys, each) + more =~= glue(each(ys[0]), s));
        assert(ok(xs[0]) && ok(ys[0]));
        assert(same(xs[0], ys[0]) && r == s);
        assert forall|i: int| 0 <= i < xt.len() implies ok(#[trigger] xt[i]) by {
            assert(xt[i] == xs[i + 1]);
        }
        assert forall|i: int| 0 <= i < yt.len() implies ok(#[trigger] yt[i]) by {
            assert(yt[i] == ys[i + 1]);
        }
        lemma_items(xt, yt, each, ok, same, rest, more);
        assert forall|i: int| 0 <= i < xs.len() implies same(#[trigger] xs[i], ys[i]) by {
            if i > 0 {
                assert(xs[i] == xt[i - 1]);
                assert(ys[i] == yt[i - 1]);
            }
        }
    }
}

/// A list is read back from the front of a list of byte strings, where each of
/// its items is, as far as `same` tells items apart.
pub proof fn lemma_list<A>(
    xs: Seq<A>,
    ys: Seq<A>,
    each: spec_fn(A) -> Writes,
    ok: spec_fn(A) -> bool,
    same: spec_fn(A, A) -> bool,
    rest: Writes,
    more: Writes,
)
    requires
        fits(xs.len()),
        fits(ys.len()),
        list(xs, each) + rest == list(ys, each) + more,
        forall|i: int| 0 <= i < xs.len() ==> ok(#[trigger] xs[i]),
        forall|i: int| 0 <= i < ys.len() ==> ok(#[trigger] ys[i]),
        forall|x: A, y: A, r: Writes, s: Writes|
            ok(x) && ok(y) && #[trigger] glue(each(x), r) == #[trigger] glue(each(y), s) ==> same(
                x,
                y,
            ) && r == s,
    ensures
        xs.len() == ys.len(),
        forall|i: int| 0 <= i < xs.len() ==> same(#[trigger] xs[i], ys[i]),
        rest == more,
{
    let fx = flat_map(xs, each);
    let fy = flat_map(ys, each);
    assert(list(xs, each) + rest =~= number(xs.len() as u64) + (fx + rest));
    assert(list(ys, each) + more =~= number(ys.len() as u64) + (fy + more));
    lemma_number(xs.len() as u64, ys.len() as u64, fx + rest, fy + more);
    lemma_items(xs, ys, each, ok, same, rest, more);
}

/// What follows three lists of byte strings follows the third of them.
pub proof fn lemma_parts3(a: Writes, b: Writes, c: Writes, rest: Writes)
    ensures
        ((a + b) + c) + rest == a + (b + (c + rest)),
{
    lemma_assoc(a + b, c, rest);
    lemma_assoc(a, b, c + rest);
}

/// What follows four lists of byte strings follows the fourth of them.
pub proof fn lemma_parts4(a: Writes, b: Writes, c: Writes, d: Writes, rest: Writes)
    ensures
        (((a + b) + c) + d) + rest == a + (b + (c + (d + rest))),
{
    lemma_assoc((a + b) + c, d, rest);
    lemma_parts3(a, b, c, d + rest);
}

/// What follows five lists of byte strings follows the fifth of them.
pub proof fn lemma_parts5(a: Writes, b: Writes, c: Writes, d: Writes, e: Writes, rest: Writes)
    ensures
        ((((a + b) + c) + d) + e) + rest == a + (b + (c + (d + (e + rest)))),
{
    lemma_assoc(((a + b) + c) + d, e, rest);
    lemma_parts4(a, b, c, d, e + rest);
}

/// A field is read back from the front of a list of byte strings.
pub proof fn lemma_field(x: FieldModel, y: FieldModel, rest: Writes, more: Writes)
    requires
        x.writes() + rest == y.writes() + more,
    ensures
        x == y,
        rest == more,
{
    let (a, b, c, d) = (
        text(x.name),
        x.type_.writes(),
        flag(x.required),
        optional_literal_writes(x.default),
    );
    let (ya, yb, yc, yd) = (
        text(y.name),
        y.type_.writes(),
        flag(y.required),
        optional_literal_writes(y.default),
    );
    lemma_parts4(a, b, c, d, rest);
    lemma_parts4(ya, yb, yc, yd, more);
    lemma_text(x.name, y.name, b + (c + (d + rest)), yb + (yc + (yd + more)));
    lemma_type(x.type_, y.type_, c + (d + rest), yc + (yd + more));
    lemma_flag(x.required, y.required, d + rest, yd + more);
    lemma_optional_literal(x.default, y.default, rest, more);
}

/// An argument is read back from the front of a list of byte strings.
pub proof fn lemma_argument(x: ArgumentModel, y: ArgumentModel, rest: Writes, more: Writes)
    requires
        x.writes() + rest == y.writes() + more,
    ensures
        x == y,
        rest == more,
{
    let (a, b, c, d, e) = (
        text(x.name),
        x.type_.writes(),
        flag(x.by_ref),
        flag(x.optional),
        optional_literal_writes(x.default),
    );
    let (ya, yb, yc, yd, ye) = (
        text(y.name),
        y.type_.writes(),
        flag(y.by_ref),
        flag(y.optional),
        optional_literal_writes(y.default),
    );
    lemma_parts5(a, b, c, d, e, rest);
    lemma_parts5(ya, yb, yc, yd, ye, more);
    lemma_text(x.name, y.name, b + (c + (d + (e + rest))), yb + (yc + (yd + (ye + more))));
    lemma_type(x.type_, y.type_, c + (d + (e + rest)), yc + (yd + (ye + more)));
    lemma_flag(x.by_ref, y.by_ref, d + (e + rest), yd + (ye + more));
    lemma_flag(x.optional, y.optional, e + rest, ye + more);
    lemma_optional_literal(x.default, y.default, rest, more);
}

/// A list of fields is read back from the front of a list of byte strings.
pub proof fn lemma_fields(xs: Seq<FieldModel>, ys: Seq<FieldModel>, rest: Writes, more: Writes)
    requires
        fits(xs.len()),
        fits(ys.len()),
        list(xs, |x: FieldModel| x.writes()) + rest == list(ys, |x: FieldModel| x.writes()) + more,
    ensures
        xs == ys,
        rest == more,
{
    let each = |x: FieldModel| x.writes();
    let ok = |x: FieldModel| true;
    let same = |a: FieldModel, b: FieldModel| a == b;
    assert forall|x: FieldModel, y: FieldModel, r: Writes, s: Writes|
        ok(x) && ok(y) && #[trigger] glue(each(x), r) == #[trigger] glue(
            each(y),
            s,
        ) implies same(x, y) && r == s by {
        lemma_field(x, y, r, s);
    }
    lemma_list(xs, ys, each, ok, same, rest, more);
    assert(xs =~= ys);
}

/// A list of arguments is read back from the front of a list of byte strings.
pub proof fn lemma_arguments(xs: Seq<ArgumentModel>, ys: Seq<ArgumentModel>, rest: Writes, more: Writes)
    requires
        fits(xs.len()),
        fits(ys.len()),
        list(xs, |x: ArgumentModel| x.writes()) + rest == list(ys, |x: ArgumentModel| x.writes()) + more,
    ensures
        xs == ys,
        rest == more,
{
    let each = |x: ArgumentModel| x.writes();
    let ok = |x: ArgumentModel| true;
    let same = |a: ArgumentModel, b: ArgumentModel| a == b;
    assert forall|x: ArgumentModel, y: ArgumentModel, r: Writes, s: Writes|
        ok(x) && ok(y) && #[trigger] glue(each(x), r) == #[trigger] glue(
            each(y),
            s,
        ) implies same(x, y) && r == s by {
        lemma_argument(x, y, r, s);
    }
    lemma_list(xs, ys, each, ok, same, rest, more);
    assert(xs =~= ys);
}

/// A list of attributes is read back from the front of a list of byte strings.
pub proof fn lemma_attributes(
    xs: Seq<AttributeModel>,
    ys: Seq<AttributeModel>,
    rest: Writes,
    more: Writes,
)
    requires
        fits(xs.len()),
        fits(ys.len()),
        attribute_writes(xs) + rest == attribute_writes(ys) + more,
    ensures
        xs == ys,
        rest == more,
{
    let each = |a: AttributeModel| a.writes();
    let ok = |x: AttributeModel| true;
    let same = |a: AttributeModel, b: AttributeModel| a == b;
    assert forall|x: AttributeModel, y: AttributeModel, r: Writes, s: Writes|
        ok(x) && ok(y) && #[trigger] glue(each(x), r) == #[trigger] glue(
            each(y),
            s,
        ) implies same(x, y) && r == s by {
        lemma_attribute(x, y, r, s);
    }
    lemma_list(xs, ys, each, ok, same, rest, more);
    assert(xs =~= ys);
}

/// Whether the lists of a record or a variant can be written with their lengths.
pub open spec fn sized_fields(fields: Seq<FieldModel>) -> bool {
    fits(fields.len())
}

/// Whether the lists of an enum can be written with their lengths.
pub open spec fn sized_enum(e: EnumModel) -> bool {
    &&& fits(e.variants.len())
    &&& forall|i: int| 0 <= i < e.variants.len() ==> sized_fields((#[trigger] e.variants[i]).fields)
}

/// Whether the lists of a call can be written with their lengths.
pub open spec fn sized_call(arguments: Seq<ArgumentModel>, attributes: Seq<AttributeModel>)
    -> bool {
    fits(arguments.len()) && fits(attributes.len())
}

/// Whether the lists of an object can be written with their lengths.
pub open spec fn sized_object(o: ObjectModel) -> bool {
    &&& fits(o.constructors.len())
    &&& fits(o.methods.len())
    &&& forall|i: int|
        0 <= i < o.constructors.len() ==> sized_call(
            (#[trigger] o.constructors[i]).arguments,
            o.constructors[i].attributes,
        )
    &&& forall|i: int|
        0 <= i < o.methods.len() ==> sized_call(
            (#[trigger] o.methods[i]).arguments,
            o.methods[i].attributes,
        )
}

/// Whether the lists of a callback interface can be written with their lengths.
pub open spec fn sized_callback(c: CallbackInterfaceModel) -> bool {
    &&& fits(c.methods.len())
    &&& forall|i: int|
        0 <= i < c.methods.len() ==> sized_call(
            (#[trigger] c.methods[i]).arguments,
            c.methods[i].attributes,
        )
}

/// A record is read back from the front of a list of byte strings.
pub proof fn lemma_record(x: RecordModel, y: RecordModel, rest: Writes, more: Writes)
    requires
        sized_fields(x.fields),
        sized_fields(y.fields),
        x.writes() + rest == y.writes() + more,
    ensures
        x == y,
        rest == more,
{
    let lx = list(x.fields, |x: FieldModel| x.writes());
    let ly = list(y.fields, |x: FieldModel| x.writes());
    lemma_assoc(text(x.name), lx, rest);
    lemma_assoc(text(y.name), ly, more);
    lemma_text(x.name, y.name, lx + rest, ly + more);
    lemma_fields(x.fields, y.fields, rest, more);
}

/// A variant is read back from the front of a list of byte strings.
pub proof fn lemma_variant(x: VariantModel, y: VariantModel, rest: Writes, more: Writes)
    requires
        sized_fields(x.fields),
        sized_fields(y.fields),
        x.writes() + rest == y.writes() + more,
    ensures
        x == y,
        rest == more,
{
    let lx = list(x.fields, |x: FieldModel| x.writes());
    let ly = list(y.fields, |x: FieldModel| x.writes());
    lemma_assoc(text(x.name), lx, rest);
    lemma_assoc(text(y.name), ly, more);
    lemma_text(x.name, y.name, lx + rest, ly + more);
    lemma_fields(x.fields, y.fields, rest, more);
}

/// A list of variants is read back from the front of a list of byte strings.
pub proof fn lemma_variants(xs: Seq<VariantModel>, ys: Seq<VariantModel>, rest: Writes, more: Writes)
    requires
        fits(xs.len()),
        fits(ys.len()),
        forall|i: int| 0 <= i < xs.len() ==> sized_fields((#[trigger] xs[i]).fields),
        forall|i: int| 0 <= i < ys.len() ==> sized_fields((#[trigger] ys[i]).fields),
        list(xs, |x: VariantModel| x.writes()) + rest == list(ys, |x: VariantModel| x.writes()) + more,
    ensures
        xs == ys,
        rest == more,
{
    let each = |x: VariantModel| x.writes();
    let ok = |x: VariantModel| sized_fields(x.fields);
    let same = |a: VariantModel, b: VariantModel| a == b;
    assert forall|x: VariantModel, y: VariantModel, r: Writes, s: Writes|
        ok(x) && ok(y) && #[trigger] glue(each(x), r) == #[trigger] glue(
            each(y),
            s,
        ) implies same(x, y) && r == s by {
        lemma_variant(x, y, r, s);
    }
    lemma_list(xs, ys, each, ok, same, rest, more);
    assert(xs =~= ys);
}

/// An enum is read back from the front of a list of byte strings.
pub proof fn lemma_enum(x: EnumModel, y: EnumModel, rest: Writes, more: Writes)
    requires
        sized_enum(x),
        sized_enum(y),
        x.writes() + rest == y.writes() + more,
    ensures
        x == y,
        rest == more,
{
    let lx = list(x.variants, |x: VariantModel| x.writes());
    let ly = list(y.variants, |x: VariantModel| x.writes());
    lemma_assoc(text(x.name), lx, rest);
    lemma_assoc(text(y.name), ly, more);
    lemma_text(x.name, y.name, lx + rest, ly + more);
    lemma_variants(x.variants, y.variants, rest, more);
}

/// An error family is read back from the front of a list of byte strings.
pub proof fn lemma_error(x: ErrorModel, y: ErrorModel, rest: Writes, more: Writes)
    requires
        sized_enum(x.enum_),
        sized_enum(y.enum_),
        x.writes() + rest == y.writes() + more,
    ensures
        x == y,
        rest == more,
{
    lemma_enum(x.enum_, y.enum_, rest, more);
}

/// The content of a function is read back from the front of a list of byte strings.
pub proof fn lemma_function(x: FunctionModel, y: FunctionModel, rest: Writes, more: Writes)
    requires
        sized_call(x.arguments, x.attributes),
        sized_call(y.arguments, y.attributes),
        x.writes() + rest == y.writes() + more,
    ensures
        x.content() == y.content(),
        rest == more,
{
    let (a, b, c, d) = (
        text(x.name),
        list(x.arguments, |x: ArgumentModel| x.writes()),
        optional_type_writes(x.return_type),
        attribute_writes(x.attributes),
    );
    let (ya, yb, yc, yd) = (
        text(y.name),
        list(y.arguments, |x: ArgumentModel| x.writes()),
        optional_type_writes(y.return_type),
        attribute_writes(y.attributes),
    );
    lemma_parts4(a, b, c, d, rest);
    lemma_parts4(ya, yb, yc, yd, more);
    lemma_text(x.name, y.name, b + (c + (d + rest)), yb + (yc + (yd + more)));
    lemma_arguments(x.arguments, y.arguments, c + (d + rest), yc + (yd + more));
    lemma_optional_type(x.return_type, y.return_type, d + rest, yd + more);
    lemma_attributes(x.attributes, y.attributes, rest, more);
}

/// The content of a constructor is read back from the front of a list of byte strings.
pub proof fn lemma_constructor(
    x: ConstructorModel,
    y: ConstructorModel,
    rest: Writes,
    more: Writes,
)
    requires
        sized_call(x.arguments, x.attributes),
        sized_call(y.arguments, y.attributes),
        x.writes() + rest == y.writes() + more,
    ensures
        x.content() == y.content(),
        rest == more,
{
    let (a, b, c) = (
        text(x.name),
        list(x.arguments, |x: ArgumentModel| x.writes()),
        attribute_writes(x.attributes),
    );
    let (ya, yb, yc) = (
        text(y.name),
        list(y.arguments, |x: ArgumentModel| x.writes()),
        attribute_writes(y.attributes),
    );
    lemma_parts3(a, b, c, rest);
    lemma_parts3(ya, yb, yc, more);
    lemma_text(x.name, y.name, b + (c + rest), yb + (yc + more));
    lemma_arguments(x.arguments, y.arguments, c + rest, yc + more);
    lemma_attributes(x.attributes, y.attributes, rest, more);
}

/// The content of a method is read back from the front of a list of byte strings.
pub proof fn lemma_method(x: MethodModel, y: MethodModel, rest: Writes, more: Writes)
    requires
        sized_call(x.arguments, x.attributes),
        sized_call(y.arguments, y.attributes),
        x.writes() + rest == y.writes() + more,
    ensures
        x.content() == y.content(),
        rest == more,
{
    let (a, b, c, d, e) = (
        text(x.name),
        text(x.object_name),
        list(x.arguments, |x: ArgumentModel| x.writes()),
        optional_type_writes(x.return_type),
        attribute_writes(x.attributes),
    );
    let (ya, yb, yc, yd, ye) = (
        text(y.name),
        text(y.object_name),
        list(y.arguments, |x: ArgumentModel| x.writes()),
        optional_type_writes(y.return_type),
        attribute_writes(y.attributes),
    );
    lemma_parts5(a, b, c, d, e, rest);
    lemma_parts5(ya, yb, yc, yd, ye, more);
    lemma_text(x.name, y.name, b + (c + (d + (e + rest))), yb + (yc + (yd + (ye + more))));
    lemma_text(x.object_name, y.object_name, c + (d + (e + rest)), yc + (yd + (ye + more)));
    lemma_arguments(x.arguments, y.arguments, d + (e + rest), yd + (ye + more));
    lemma_optional_type(x.return_type, y.return_type, e + rest, ye + more);
    lemma_attributes(x.attributes, y.attributes, rest, more);
}

/// The contents of a list of constructors are read back from the front of a list of byte strings.
pub proof fn lemma_constructors(xs: Seq<ConstructorModel>, ys: Seq<ConstructorModel>, rest: Writes, more: Writes)
    requires
        fits(xs.len()),
        fits(ys.len()),
        forall|i: int| 0 <= i < xs.len() ==> sized_call((#[trigger] xs[i]).arguments, (#[trigger] xs[i]).attributes),
        forall|i: int| 0 <= i < ys.len() ==> sized_call((#[trigger] ys[i]).arguments, (#[trigger] ys[i]).attributes),
        list(xs, |x: ConstructorModel| x.writes()) + rest == list(ys, |x: ConstructorModel| x.writes()) + more,
    ensures
        xs.map_values(|c: ConstructorModel| c.content()) == ys.map_values(|c: ConstructorModel| c.content()),
        rest == more,
{
    let each = |x: ConstructorModel| x.writes();
    let ok = |x: ConstructorModel| sized_call(x.arguments, x.attributes);
    let same = |a: ConstructorModel, b: ConstructorModel| a.content() == b.content();
    assert forall|x: ConstructorModel, y: ConstructorModel, r: Writes, s: Writes|
        ok(x) && ok(y) && #[trigger] glue(each(x), r) == #[trigger] glue(
            each(y),
            s,
        ) implies same(x, y) && r == s by {
        lemma_constructor(x, y, r, s);
    }
    lemma_list(xs, ys, each, ok, same, rest, more);
    assert(xs.map_values(|c: ConstructorModel| c.content()) =~= ys.map_values(
        |c: ConstructorModel| c.content(),
    ));
}

/// The contents of a list of methods are read back from the front of a list of byte strings.
pub proof fn lemma_methods(xs: Seq<MethodModel>, ys: Seq<MethodModel>, rest: Writes, more: Writes)
    requires
        fits(xs.len()),
        fits(ys.len()),
        forall|i: int| 0 <= i < xs.len() ==> sized_call((#[trigger] xs[i]).arguments, (#[trigger] xs[i]).attributes),
        forall|i: int| 0 <= i < ys.len() ==> sized_call((#[trigger] ys[i]).arguments, (#[trigger] ys[i]).attributes),
        list(xs, |x: MethodModel| x.writes()) + rest == list(ys, |x: MethodModel| x.writes()) + more,
    ensures
        xs.map_values(|m: MethodModel| m.content()) == ys.map_values(|m: MethodModel| m.content()),
        rest == more,
{
    let each = |x: MethodModel| x.writes();
    let ok = |x: MethodModel| sized_call(x.arguments, x.attributes);
    let same = |a: MethodModel, b: MethodModel| a.content() == b.content();
    assert forall|x: MethodModel, y: MethodModel, r: Writes, s: Writes|
        ok(x) && ok(y) && #[trigger] glue(each(x), r) == #[trigger] glue(
            each(y),
            s,
        ) implies same(x, y) && r == s by {
        lemma_method(x, y, r, s);
    }
    lemma_list(xs, ys, each, ok, same, rest, more);
    assert(xs.map_values(|m: MethodModel| m.content()) =~= ys.map_values(
        |m: MethodModel| m.content(),
    ));
}

/// The content of an object is read back from the front of a list of byte strings.
pub proof fn lemma_object(x: ObjectModel, y: ObjectModel, rest: Writes, more: Writes)
    requires
        sized_object(x),
        sized_object(y),
        x.writes() + rest == y.writes() + more,
    ensures
        x.content() == y.content(),
        rest == more,
{
    let (a, b, c, d) = (
        text(x.name),
        list(x.constructors, |x: ConstructorModel| x.writes()),
        list(x.methods, |x: MethodModel| x.writes()),
        flag(x.uses_deprecated_threadsafe_attribute),
    );
    let (ya, yb, yc, yd) = (
        text(y.name),
        list(y.constructors, |x: ConstructorModel| x.writes()),
        list(y.methods, |x: MethodModel| x.writes()),
        flag(y.uses_deprecated_threadsafe_attribute),
    );
    lemma_parts4(a, b, c, d, rest);
    lemma_parts4(ya, yb, yc, yd, more);
    lemma_text(x.name, y.name, b + (c + (d + rest)), yb + (yc + (yd + more)));
    lemma_constructors(x.constructors, y.constructors, c + (d + rest), yc + (yd + more));
    lemma_methods(x.methods, y.methods, d + rest, yd + more);
    lemma_flag(
        x.uses_deprecated_threadsafe_attribute,
        y.uses_deprecated_threadsafe_attribute,
        rest,
        more,
    );
}

/// The content of a callback interface is read back from the front of a list
/// of byte strings.
pub proof fn lemma_callback(
    x: CallbackInterfaceModel,
    y: CallbackInterfaceModel,
    rest: Writes,
    more: Writes,
)
    requires
        sized_callback(x),
        sized_callback(y),
        x.writes() + rest == y.writes() + more,
    ensures
        x.content() == y.content(),
        rest == more,
{
    let lx = list(x.methods, |x: MethodModel| x.writes());
    let ly = list(y.methods, |x: MethodModel| x.writes());
    lemma_assoc(text(x.name), lx, rest);
    lemma_assoc(text(y.name), ly, more);
    lemma_text(x.name, y.name, lx + rest, ly + more);
    lemma_methods(x.methods, y.methods, rest, more);
}

/// A list of enums is read back from the front of a list of byte strings.
pub proof fn lemma_enums(xs: Seq<EnumModel>, ys: Seq<EnumModel>, rest: Writes, more: Writes)
    requires
        fits(xs.len()),
        fits(ys.len()),
        forall|i: int| 0 <= i < xs.len() ==> sized_enum((#[trigger] xs[i])),
        forall|i: int| 0 <= i < ys.len() ==> sized_enum((#[trigger] ys[i])),
        list(xs, |x: EnumModel| x.writes()) + rest == list(ys, |x: EnumModel| x.writes()) + more,
    ensures
        xs == ys,
        rest == more,
{
    let each = |x: EnumModel| x.writes();
    let ok = |x: EnumModel| sized_enum(x);
    let same = |a: EnumModel, b: EnumModel| a == b;
    assert forall|x: EnumModel, y: EnumModel, r: Writes, s: Writes|
        ok(x) && ok(y) && #[trigger] glue(each(x), r) == #[trigger] glue(
            each(y),
            s,
        ) implies same(x, y) && r == s by {
        lemma_enum(x, y, r, s);
    }
    lemma_list(xs, ys, each, ok, same, rest, more);
    assert(xs =~= ys);
}

/// A list of records is read back from the front of a list of byte strings.
pub proof fn lemma_records(xs: Seq<RecordModel>, ys: Seq<RecordModel>, rest: Writes, more: Writes)
    requires
        fits(xs.len()),
        fits(ys.len()),
        forall|i: int| 0 <= i < xs.len() ==> sized_fields((#[trigger] xs[i]).fields),
        forall|i: int| 0 <= i < ys.len() ==> sized_fields((#[trigger] ys[i]).fields),
        list(xs, |x: RecordModel| x.writes()) + rest == list(ys, |x: RecordModel| x.writes()) + more,
    ensures
        xs == ys,
        rest == more,
{
    let each = |x: RecordModel| x.writes();
    let ok = |x: RecordModel| sized_fields(x.fields);
    let same = |a: RecordModel, b: RecordModel| a == b;
    assert forall|x: RecordModel, y: RecordModel, r: Writes, s: Writes|
        ok(x) && ok(y) && #[trigger] glue(each(x), r) == #[trigger] glue(
            each(y),
            s,
        ) implies same(x, y) && r == s by {
        lemma_record(x, y, r, s);
    }
    lemma_list(xs, ys, each, ok, same, rest, more);
    assert(xs =~= ys);
}

/// A list of error families is read back from the front of a list of byte strings.
pub proof fn lemma_errors(xs: Seq<ErrorModel>, ys: Seq<ErrorModel>, rest: Writes, more: Writes)
    requires
        fits(xs.len()),
        fits(ys.len()),
        forall|i: int| 0 <= i < xs.len() ==> sized_enum((#[trigger] xs[i]).enum_),
        forall|i: int| 0 <= i < ys.len() ==> sized_enum((#[trigger] ys[i]).enum_),
        list(xs, |x: ErrorModel| x.writes()) + rest == list(ys, |x: ErrorModel| x.writes()) + more,
    ensures
        xs == ys,
        rest == more,
{
    let each = |x: ErrorModel| x.writes();
    let ok = |x: ErrorModel| sized_enum(x.enum_);
    let same = |a: ErrorModel, b: ErrorModel| a == b;
    assert forall|x: ErrorModel, y: ErrorModel, r: Writes, s: Writes|
        ok(x) && ok(y) && #[trigger] glue(each(x), r) == #[trigger] glue(
            each(y),
            s,
        ) implies same(x, y) && r == s by {
        lemma_error(x, y, r, s);
    }
    lemma_list(xs, ys, each, ok, same, rest, more);
    assert(xs =~= ys);
}

/// The contents of a list of functions are read back from the front of a list of byte strings.
pub proof fn lemma_functions(xs: Seq<FunctionModel>, ys: Seq<FunctionModel>, rest: Writes, more: Writes)
    requires
        fits(xs.len()),
        fits(ys.len()),
        forall|i: int| 0 <= i < xs.len() ==> sized_call((#[trigger] xs[i]).arguments, (#[trigger] xs[i]).attributes),
        forall|i: int| 0 <= i < ys.len() ==> sized_call((#[trigger] ys[i]).arguments, (#[trigger] ys[i]).attributes),
        list(xs, |x: FunctionModel| x.writes()) + rest == list(ys, |x: FunctionModel| x.writes()) + more,
    ensures
        xs.map_values(|f: FunctionModel| f.content()) == ys.map_values(|f: FunctionModel| f.content()),
        rest == more,
{
    let each = |x: FunctionModel| x.writes();
    let ok = |x: FunctionModel| sized_call(x.arguments, x.attributes);
    let same = |a: FunctionModel, b: FunctionModel| a.content() == b.content();
    assert forall|x: FunctionModel, y: FunctionModel, r: Writes, s: Writes|
        ok(x) && ok(y) && #[trigger] glue(each(x), r) == #[trigger] glue(
            each(y),
            s,
        ) implies same(x, y) && r == s by {
        lemma_function(x, y, r, s);
    }
    lemma_list(xs, ys, each, ok, same, rest, more);
    assert(xs.map_values(|f: FunctionModel| f.content()) =~= ys.map_values(|f: FunctionModel| f.content()));
}

/// The contents of a list of objects are read back from the front of a list of byte strings.
pub proof fn lemma_objects(xs: Seq<ObjectModel>, ys: Seq<ObjectModel>, rest: Writes, more: Writes)
    requires
        fits(xs.len()),
        fits(ys.len()),
        forall|i: int| 0 <= i < xs.len() ==> sized_object((#[trigger] xs[i])),
        forall|i: int| 0 <= i < ys.len() ==> sized_object((#[trigger] ys[i])),
        list(xs, |x: ObjectModel| x.writes()) + rest == list(ys, |x: ObjectModel| x.writes()) + more,
    ensures
        xs.map_values(|o: ObjectModel| o.content()) == ys.map_values(|o: ObjectModel| o.content()),
        rest == more,
{
    let each = |x: ObjectModel| x.writes();
    let ok = |x: ObjectModel| sized_object(x);
    let same = |a: ObjectModel, b: ObjectModel| a.content() == b.content();
    assert forall|x: ObjectModel, y: ObjectModel, r: Writes, s: Writes|
        ok(x) && ok(y) && #[trigger] glue(each(x), r) == #[trigger] glue(
            each(y),
            s,
        ) implies same(x, y) && r == s by {
        lemma_object(x, y, r, s);
    }
    lemma_list(xs, ys, each, ok, same, rest, more);
    assert(xs.map_values(|o: ObjectModel| o.content()) =~= ys.map_values(|o: ObjectModel| o.content()));
}

/// The contents of a list of callback interfaces are read back from the front of a list of byte strings.
pub proof fn lemma_callbacks(xs: Seq<CallbackInterfaceModel>, ys: Seq<CallbackInterfaceModel>, rest: Writes, more: Writes)
    requires
        fits(xs.len()),
        fits(ys.len()),
        forall|i: int| 0 <= i < xs.len() ==> sized_callback((#[trigger] xs[i])),
        forall|i: int| 0 <= i < ys.len() ==> sized_callback((#[trigger] ys[i])),
        list(xs, |x: CallbackInterfaceModel| x.writes()) + rest == list(ys, |x: CallbackInterfaceModel| x.writes()) + more,
    ensures
        xs.map_values(|c: CallbackInterfaceModel| c.content()) == ys.map_values(|c: CallbackInterfaceModel| c.content()),
        rest == more,
{
    let each = |x: CallbackInterfaceModel| x.writes();
    let ok = |x: CallbackInterfaceModel| sized_callback(x);
    let same = |a: CallbackInterfaceModel, b: CallbackInterfaceModel| a.content() == b.content();
    assert forall|x: CallbackInterfaceModel, y: CallbackInterfaceModel, r: Writes, s: Writes|
        ok(x) && ok(y) && #[trigger] glue(each(x), r) == #[trigger] glue(
            each(y),
            s,
        ) implies same(x, y) && r == s by {
        lemma_callback(x, y, r, s);
    }
    lemma_list(xs, ys, each, ok, same, rest, more);
    assert(xs.map_values(|c: CallbackInterfaceModel| c.content()) =~= ys.map_values(|c: CallbackInterfaceModel| c.content()));
}

/// What follows eight lists of byte strings follows the eighth of them.
pub proof fn lemma_parts8(
    a: Writes,
    b: Writes,
    c: Writes,
    d: Writes,
    e: Writes,
    f: Writes,
    g: Writes,
    h: Writes,
    rest: Writes,
)
    ensures
        (((((((a + b) + c) + d) + e) + f) + g) + h) + rest == a + (b + (c + (d + (e + (f + (g + (h
            + rest))))))),
{
    lemma_assoc((((((a + b) + c) + d) + e) + f) + g, h, rest);
    lemma_assoc(((((a + b) + c) + d) + e) + f, g, h + rest);
    lemma_assoc((((a + b) + c) + d) + e, f, g + (h + rest));
    lemma_parts5(a, b, c, d, e, f + (g + (h + rest)));
}

/// Whether every list of an interface can be written with its length. The
/// lists of every interface that is held in memory can.
pub open spec fn sized(m: InterfaceModel) -> bool {
    &&& fits(m.enums.len())
    &&& fits(m.records.len())
    &&& fits(m.functions.len())
    &&& fits(m.objects.len())
    &&& fits(m.callback_interfaces.len())
    &&& fits(m.errors.len())
    &&& forall|i: int| 0 <= i < m.enums.len() ==> sized_enum(#[trigger] m.enums[i])
    &&& forall|i: int| 0 <= i < m.records.len() ==> sized_fields((#[trigger] m.records[i]).fields)
    &&& forall|i: int|
        0 <= i < m.functions.len() ==> sized_call(
            (#[trigger] m.functions[i]).arguments,
            m.functions[i].attributes,
        )
    &&& forall|i: int| 0 <= i < m.objects.len() ==> sized_object(#[trigger] m.objects[i])
    &&& forall|i: int|
        0 <= i < m.callback_interfaces.len() ==> sized_callback(
            #[trigger] m.callback_interfaces[i],
        )
    &&& forall|i: int| 0 <= i < m.errors.len() ==> sized_enum((#[trigger] m.errors[i]).enum_)
}

/// The checksum reads the whole content: two interfaces that hand the same
/// byte strings to the hasher have the same version, the same namespace and the
/// same declarations, down to every name, type and attribute.
pub proof fn law_writes_tell_content(a: InterfaceModel, b: InterfaceModel)
    requires
        sized(a),
        sized(b),
        a.writes() == b.writes(),
    ensures
        a.content() == b.content(),
{
    let none = Seq::<Seq<u8>>::empty();
    let (a1, a2, a3, a4, a5, a6, a7, a8) = (
        text(a.uniffi_version),
        text(a.namespace),
        list(a.enums, |x: EnumModel| x.writes()),
        list(a.records, |x: RecordModel| x.writes()),
        list(a.functions, |x: FunctionModel| x.writes()),
        list(a.objects, |x: ObjectModel| x.writes()),
        list(a.callback_interfaces, |x: CallbackInterfaceModel| x.writes()),
        list(a.errors, |x: ErrorModel| x.writes()),
    );
    let (b1, b2, b3, b4, b5, b6, b7, b8) = (
        text(b.uniffi_version),
        text(b.namespace),
        list(b.enums, |x: EnumModel| x.writes()),
        list(b.records, |x: RecordModel| x.writes()),
        list(b.functions, |x: FunctionModel| x.writes()),
        list(b.objects, |x: ObjectModel| x.writes()),
        list(b.callback_interfaces, |x: CallbackInterfaceModel| x.writes()),
        list(b.errors, |x: ErrorModel| x.writes()),
    );
    lemma_parts8(a1, a2, a3, a4, a5, a6, a7, a8, none);
    lemma_parts8(b1, b2, b3, b4, b5, b6, b7, b8, none);
    let a_rest7 = a8 + none;
    let b_rest7 = b8 + none;
    let a_rest6 = a7 + a_rest7;
    let b_rest6 = b7 + b_rest7;
    let a_rest5 = a6 + a_rest6;
    let b_rest5 = b6 + b_rest6;
    let a_rest4 = a5 + a_rest5;
    let b_rest4 = b5 + b_rest5;
    let a_rest3 = a4 + a_rest4;
    let b_rest3 = b4 + b_rest4;
    let a_rest2 = a3 + a_rest3;
    let b_rest2 = b3 + b_rest3;
    lemma_text(a.uniffi_version, b.uniffi_version, a2 + a_rest2, b2 + b_rest2);
    lemma_text(a.namespace, b.namespace, a_rest2, b_rest2);
    lemma_enums(a.enums, b.enums, a_rest3, b_rest3);
    lemma_records(a.records, b.records, a_rest4, b_rest4);
    lemma_functions(a.functions, b.functions, a_rest5, b_rest5);
    lemma_objects(a.objects, b.objects, a_rest6, b_rest6);
    lemma_callbacks(a.callback_interfaces, b.callback_interfaces, a_rest7, b_rest7);
    lemma_errors(a.errors, b.errors, none, none);
}

/// The length of a list that is held in memory can be written as a number.
pub proof fn lemma_held_fits<T>(v: &Vec<T>)
    ensures
        fits(v@.len()),
{
    assert(v.len() == v@.len());
}

/// The lists of a call that is held in memory can be written with their lengths.
proof fn lemma_held_call_is_sized(arguments: &Vec<Argument>, attributes: &Vec<Attribute>)
    ensures
        sized_call(argument_models(arguments@), attribute_models(attributes@)),
{
    lemma_held_fits(arguments);
    lemma_held_fits(attributes);
}

/// The lists of an enum that is held in memory can be written with their lengths.
proof fn lemma_held_enum_is_sized(e: &Enum)
    ensures
        sized_enum(e@),
{
    lemma_held_fits(&e.variants);
    assert forall|i: int| 0 <= i < e@.variants.len() implies sized_fields(
        (#[trigger] e@.variants[i]).fields,
    ) by {
        assert(e@.variants[i] == e.variants@[i]@);
        lemma_held_fits(&e.variants@[i].fields);
    }
}

/// The lists of the methods that are held in memory can be written with their lengths.
proof fn lemma_held_methods_are_sized(methods: &Vec<Method>)
    ensures
        fits(method_models(methods@).len()),
        forall|k: int|
            0 <= k < method_models(methods@).len() ==> sized_call(
                (#[trigger] method_models(methods@)[k]).arguments,
                method_models(methods@)[k].attributes,
            ),
{
    lemma_held_fits(methods);
    assert forall|k: int| 0 <= k < method_models(methods@).len() implies sized_call(
        (#[trigger] method_models(methods@)[k]).arguments,
        method_models(methods@)[k].attributes,
    ) by {
        assert(method_models(methods@)[k] == methods@[k]@);
        lemma_held_call_is_sized(&methods@[k].arguments, &methods@[k].attributes.0);
    }
}

/// The lists of an object that is held in memory can be written with their lengths.
proof fn lemma_held_object_is_sized(o: &Object)
    ensures
        sized_object(o@),
{
    lemma_held_fits(&o.constructors);
    lemma_held_methods_are_sized(&o.methods);
    assert forall|k: int| 0 <= k < o@.constructors.len() implies sized_call(
        (#[trigger] o@.constructors[k]).arguments,
        o@.constructors[k].attributes,
    ) by {
        assert(o@.constructors[k] == o.constructors@[k]@);
        lemma_held_call_is_sized(&o.constructors@[k].arguments, &o.constructors@[k].attributes.0);
    }
}

/// The lists of an interface that is held in memory can be written with their lengths.
pub proof fn lemma_held_is_sized(ci: &ComponentInterface)
    ensures
        sized(ci@),
{
    let m = ci@;
    lemma_held_fits(&ci.enums);
    lemma_held_fits(&ci.records);
    lemma_held_fits(&ci.functions);
    lemma_held_fits(&ci.objects);
    lemma_held_fits(&ci.callback_interfaces);
    lemma_held_fits(&ci.errors);
    assert forall|i: int| 0 <= i < m.enums.len() implies sized_enum(#[trigger] m.enums[i]) by {
        lemma_held_enum_is_sized(&ci.enums@[i]);
    }
    assert forall|i: int| 0 <= i < m.errors.len() implies sized_enum(
        (#[trigger] m.errors[i]).enum_,
    ) by {
        lemma_held_enum_is_sized(&ci.errors@[i].enum_);
    }
    assert forall|i: int| 0 <= i < m.objects.len() implies sized_object(
        #[trigger] m.objects[i],
    ) by {
        lemma_held_object_is_sized(&ci.objects@[i]);
    }
    assert forall|i: int| 0 <= i < m.callback_interfaces.len() implies sized_callback(
        #[trigger] m.callback_interfaces[i],
    ) by {
        assert(m.callback_interfaces[i] == ci.callback_interfaces@[i]@);
        lemma_held_methods_are_sized(&ci.callback_interfaces@[i].methods);
    }
    assert forall|i: int| 0 <= i < m.records.len() implies sized_fields(
        (#[trigger] m.records[i]).fields,
    ) by {
        assert(m.records[i] == ci.records@[i]@);
        lemma_held_fits(&ci.records@[i].fields);
    }
    assert forall|i: int| 0 <= i < m.functions.len() implies sized_call(
        (#[trigger] m.functions[i]).arguments,
        m.functions[i].attributes,
    ) by {
        assert(m.functions[i] == ci.functions@[i]@);
        lemma_held_call_is_sized(&ci.functions@[i].arguments, &ci.functions@[i].attributes.0);
    }
}

/// Interfaces of different content hand different byte strings to the hasher:
/// no name, no type and no attribute of a declaration, nor the namespace or the
/// version, can change without a change in what is hashed. That the checksums
/// then differ holds but for a collision of the hash.
pub proof fn law_checksum_reads_content(a: &ComponentInterface, b: &ComponentInterface)
    requires
        a@.content() != b@.content(),
    ensures
        a@.writes() != b@.writes(),
{
    lemma_held_is_sized(a);
    lemma_held_is_sized(b);
    if a@.writes() == b@.writes() {
        law_writes_tell_content(a@, b@);
    }
}

} // verus!
