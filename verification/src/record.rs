//! Records: values with a fixed list of named, typed fields, passed by value
//! through the byte buffer.

use vstd::prelude::*;
use crate::fold::{flat_map, lemma_flat_map_views, refs};
use crate::literal::{clone_default, default_model, Literal, LiteralModel};
use crate::types::{collect_types, models_of, HoldsTypes, Type, TypeModel};

verus! {

/// What a [`Field`] stands for.
pub struct FieldModel {
    pub name: Seq<char>,
    pub type_: TypeModel,
    pub required: bool,
    pub default: Option<LiteralModel>,
}

/// What a [`Record`] stands for.
pub struct RecordModel {
    pub name: Seq<char>,
    pub fields: Seq<FieldModel>,
}

/// The types that a list of fields holds, field after field.
pub open spec fn field_types(fields: Seq<FieldModel>) -> Seq<TypeModel> {
    flat_map(fields, |f: FieldModel| f.type_.types())
}

impl RecordModel {
    /// The types that the record holds, field after field.
    pub open spec fn types(self) -> Seq<TypeModel> {
        field_types(self.fields)
    }
}

/// A field of a record, or of an enum variant.
#[derive(Debug, PartialEq, Eq)]
pub struct Field {
    pub(crate) name: String,
    pub(crate) type_: Type,
    pub(crate) required: bool,
    pub(crate) default: Option<Literal>,
}

impl View for Field {
    type V = FieldModel;

    open(crate) spec fn view(&self) -> FieldModel {
        FieldModel {
            name: self.name@,
            type_: self.type_@,
            required: self.required,
            default: default_model(self.default),
        }
    }
}

impl Clone for Field {
    fn clone(&self) -> (r: Field)
        ensures
            r@ == self@,
    {
        Field {
            name: self.name.clone(),
            type_: self.type_.clone(),
            required: self.required,
            default: clone_default(&self.default),
        }
    }
}

impl HoldsTypes for Field {
    open spec fn held(&self) -> Seq<TypeModel> {
        self@.type_.types()
    }

    fn held_types(&self) -> (r: Vec<&Type>) {
        self.type_.iter_types()
    }
}

impl Field {
    pub fn name(&self) -> (r: &str)
        ensures
            r@ == self@.name,
    {
        self.name.as_str()
    }

    pub fn type_(&self) -> (r: Type)
        ensures
            r@ == self@.type_,
    {
        self.type_.clone()
    }

    /// Whether a value must be given for the field.
    pub fn required(&self) -> (r: bool)
        ensures
            r == self@.required,
    {
        self.required
    }

    pub fn default_value(&self) -> (r: Option<Literal>)
        ensures
            default_model(r) == self@.default,
    {
        clone_default(&self.default)
    }

    /// The types that the field holds: its type, then what that type holds.
    pub fn iter_types(&self) -> (r: Vec<&Type>)
        ensures
            models_of(r@) == self@.type_.types(),
    {
        self.type_.iter_types()
    }
}

/// The views of a list of fields.
pub open spec fn field_models(fields: Seq<Field>) -> Seq<FieldModel> {
    fields.map_values(|f: Field| f@)
}

/// A copy of a list of fields.
pub(crate) fn clone_fields(fields: &Vec<Field>) -> (r: Vec<Field>)
    ensures
        field_models(r@) == field_models(fields@),
{
    let mut out: Vec<Field> = Vec::new();
    let mut i: usize = 0;
    while i < fields.len()
        invariant
            i <= fields@.len(),
            out@.len() == i,
            forall|j: int| 0 <= j < i ==> out@[j]@ == fields@[j]@,
        decreases fields@.len() - i,
    {
        out.push(fields[i].clone());
        i += 1;
    }
    assert(field_models(out@) =~= field_models(fields@));
    out
}

/// The types that a list of fields holds, field after field.
pub(crate) fn collect_field_types(fields: &Vec<Field>) -> (r: Vec<&Type>)
    ensures
        models_of(r@) == field_types(field_models(fields@)),
{
    proof {
        lemma_flat_map_views(
            fields@,
            |f: Field| f@,
            |f: FieldModel| f.type_.types(),
            |f: Field| f.held(),
        );
    }
    collect_types(fields)
}

/// A record: a name and an ordered list of fields.
#[derive(Debug, PartialEq, Eq)]
pub struct Record {
    pub(crate) name: String,
    pub(crate) fields: Vec<Field>,
}

impl View for Record {
    type V = RecordModel;

    open(crate) spec fn view(&self) -> RecordModel {
        RecordModel { name: self.name@, fields: field_models(self.fields@) }
    }
}

impl Clone for Record {
    fn clone(&self) -> (r: Record)
        ensures
            r@ == self@,
    {
        Record { name: self.name.clone(), fields: clone_fields(&self.fields) }
    }
}

impl HoldsTypes for Record {
    open spec fn held(&self) -> Seq<TypeModel> {
        self@.types()
    }

    fn held_types(&self) -> (r: Vec<&Type>) {
        self.iter_types()
    }
}

impl Record {
    pub fn name(&self) -> (r: &str)
        ensures
            r@ == self@.name,
    {
        self.name.as_str()
    }

    /// The type that names this record.
    pub fn type_(&self) -> (r: Type)
        ensures
            r@ == TypeModel::Record(self@.name),
    {
        Type::Record(self.name.clone())
    }

    /// The fields, in the order in which they were declared.
    pub fn fields(&self) -> (r: Vec<&Field>)
        ensures
            r@.len() == self@.fields.len(),
            forall|i: int| 0 <= i < r@.len() ==> (#[trigger] r@[i])@ == self@.fields[i],
    {
        refs(&self.fields)
    }

    /// The types that the record holds, field after field.
    pub fn iter_types(&self) -> (r: Vec<&Type>)
        ensures
            models_of(r@) == self@.types(),
    {
        collect_field_types(&self.fields)
    }
}

} // verus!
