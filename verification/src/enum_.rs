//! Enums: a name and an ordered list of variants, each of which may carry fields.
//! An enum is passed through the byte buffer, as the number of the variant followed
//! by its fields.

use vstd::prelude::*;
use crate::fold::{flat_map, lemma_flat_map_views, refs};
use crate::record::{
    clone_fields, collect_field_types, field_models, field_types, Field, FieldModel,
};
use crate::types::{collect_types, models_of, HoldsTypes, Type, TypeModel};

verus! {

/// What a [`Variant`] stands for.
pub struct VariantModel {
    pub name: Seq<char>,
    pub fields: Seq<FieldModel>,
}

/// What an [`Enum`] stands for.
pub struct EnumModel {
    pub name: Seq<char>,
    pub variants: Seq<VariantModel>,
}

impl VariantModel {
    /// The types that the variant holds, field after field.
    pub open spec fn types(self) -> Seq<TypeModel> {
        field_types(self.fields)
    }
}

impl EnumModel {
    /// An enum is flat when none of its variants has a field.
    pub open spec fn is_flat(self) -> bool {
        forall|i: int| 0 <= i < self.variants.len() ==> (#[trigger] self.variants[i]).fields.len()
            == 0
    }

    /// The types that the enum holds, variant after variant.
    pub open spec fn types(self) -> Seq<TypeModel> {
        flat_map(self.variants, |v: VariantModel| v.types())
    }
}

/// A variant of an enum: a name, and zero or more fields.
#[derive(Debug, PartialEq, Eq)]
pub struct Variant {
    pub(crate) name: String,
    pub(crate) fields: Vec<Field>,
}

impl View for Variant {
    type V = VariantModel;

    open(crate) spec fn view(&self) -> VariantModel {
        VariantModel { name: self.name@, fields: field_models(self.fields@) }
    }
}

impl Clone for Variant {
    fn clone(&self) -> (r: Variant)
        ensures
            r@ == self@,
    {
        Variant { name: self.name.clone(), fields: clone_fields(&self.fields) }
    }
}

impl Default for Variant {
    fn default() -> (r: Variant)
        ensures
            r@ == (VariantModel { name: Seq::empty(), fields: Seq::empty() }),
    {
        let r = Variant { name: String::new(), fields: Vec::new() };
        assert(r@.fields =~= Seq::empty());
        r
    }
}

impl HoldsTypes for Variant {
    open spec fn held(&self) -> Seq<TypeModel> {
        self@.types()
    }

    fn held_types(&self) -> (r: Vec<&Type>) {
        self.iter_types()
    }
}

impl Variant {
    pub fn name(&self) -> (r: &str)
        ensures
            r@ == self@.name,
    {
        self.name.as_str()
    }

    /// The fields, in the order in which they were declared.
    pub fn fields(&self) -> (r: Vec<&Field>)
        ensures
            r@.len() == self@.fields.len(),
            forall|i: int| 0 <= i < r@.len() ==> (#[trigger] r@[i])@ == self@.fields[i],
    {
        refs(&self.fields)
    }

    pub fn has_fields(&self) -> (r: bool)
        ensures
            r == (self@.fields.len() > 0),
    {
        self.fields.len() > 0
    }

    /// The types that the variant holds, field after field.
    pub fn iter_types(&self) -> (r: Vec<&Type>)
        ensures
            models_of(r@) == self@.types(),
    {
        collect_field_types(&self.fields)
    }
}

/// The views of a list of variants.
pub open spec fn variant_models(variants: Seq<Variant>) -> Seq<VariantModel> {
    variants.map_values(|v: Variant| v@)
}

/// A copy of a list of variants.
pub(crate) fn clone_variants(variants: &Vec<Variant>) -> (r: Vec<Variant>)
    ensures
        variant_models(r@) == variant_models(variants@),
{
    let mut out: Vec<Variant> = Vec::new();
    let mut i: usize = 0;
    while i < variants.len()
        invariant
            i <= variants@.len(),
            out@.len() == i,
            forall|j: int| 0 <= j < i ==> out@[j]@ == variants@[j]@,
        decreases variants@.len() - i,
    {
        out.push(variants[i].clone());
        i += 1;
    }
    assert(variant_models(out@) =~= variant_models(variants@));
    out
}

/// An enum: a name and an ordered list of variants.
#[derive(Debug, PartialEq, Eq)]
pub struct Enum {
    pub(crate) name: String,
    pub(crate) variants: Vec<Variant>,
}

impl View for Enum {
    type V = EnumModel;

    open(crate) spec fn view(&self) -> EnumModel {
        EnumModel { name: self.name@, variants: variant_models(self.variants@) }
    }
}

impl Clone for Enum {
    fn clone(&self) -> (r: Enum)
        ensures
            r@ == self@,
    {
        Enum { name: self.name.clone(), variants: clone_variants(&self.variants) }
    }
}

impl HoldsTypes for Enum {
    open spec fn held(&self) -> Seq<TypeModel> {
        self@.types()
    }

    fn held_types(&self) -> (r: Vec<&Type>) {
        self.iter_types()
    }
}

impl Enum {
    pub fn name(&self) -> (r: &str)
        ensures
            r@ == self@.name,
    {
        self.name.as_str()
    }

    /// The type that names this enum.
    pub fn type_(&self) -> (r: Type)
        ensures
            r@ == TypeModel::Enum(self@.name),
    {
        Type::Enum(self.name.clone())
    }

    /// The variants, in the order in which they were declared.
    pub fn variants(&self) -> (r: Vec<&Variant>)
        ensures
            r@.len() == self@.variants.len(),
            forall|i: int| 0 <= i < r@.len() ==> (#[trigger] r@[i])@ == self@.variants[i],
    {
        refs(&self.variants)
    }

    /// Whether no variant of the enum has a field.
    pub fn is_flat(&self) -> (r: bool)
        ensures
            r == self@.is_flat(),
    {
        let mut i: usize = 0;
        while i < self.variants.len()
            invariant
                i <= self.variants@.len(),
                forall|j: int| 0 <= j < i ==> (#[trigger] self@.variants[j]).fields.len() == 0,
            decreases self.variants@.len() - i,
        {
            if self.variants[i].has_fields() {
                assert(self@.variants[i as int].fields.len() > 0);
                return false;
            }
            i += 1;
        }
        true
    }

    /// The types that the enum holds, variant after variant.
    pub fn iter_types(&self) -> (r: Vec<&Type>)
        ensures
            models_of(r@) == self@.types(),
    {
        proof {
            lemma_flat_map_views(
                self.variants@,
                |v: Variant| v@,
                |v: VariantModel| v.types(),
                |v: Variant| v.held(),
            );
        }
        collect_types(&self.variants)
    }
}

} // verus!
