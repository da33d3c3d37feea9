//! The attributes of a declaration: a closed set per kind of declaration, checked
//! when the declaration is read. An attribute that the kind does not take is a
//! failure, never passed over in silence.

use vstd::prelude::*;
use crate::failure::{Failure, InterfaceError};
use crate::fold::{lemma_try_map_done, lemma_try_map_failure, lemma_try_map_step, try_map};
use crate::text::str_eq;

verus! {

/// An attribute as it is written: a key, and a value where one follows the key.
#[derive(Debug, PartialEq, Eq, Hash)]
pub struct RawAttribute {
    pub name: String,
    pub value: Option<String>,
}

/// How a method takes its receiver.
#[derive(Debug, Clone, Copy, PartialEq, Eq, Hash, Structural)]
pub enum SelfType {
    /// As a shared handle.
    ByArc,
}

/// What an [`Attribute`] stands for.
pub enum AttributeModel {
    ByRef,
    Enum,
    Error,
    Name(Seq<char>),
    SelfType(SelfType),
    Threadsafe,
    Throws(Seq<char>),
    External(Seq<char>),
    Custom,
}

/// An attribute that was recognized.
#[derive(Debug, PartialEq, Eq, Hash)]
pub enum Attribute {
    /// The argument is passed by reference.
    ByRef,
    /// The interface is a tagged union.
    Enum,
    /// The declaration is an error family.
    Error,
    /// The name of an alternate constructor.
    Name(String),
    /// How the method takes its receiver.
    SelfType(SelfType),
    /// A marker that has no effect any more.
    Threadsafe,
    /// The error that the operation can throw.
    Throws(String),
    /// The type lives in the named crate.
    External(String),
    /// The type is a custom type over another representation.
    Custom,
}

impl View for Attribute {
    type V = AttributeModel;

    open spec fn view(&self) -> AttributeModel {
        match self {
            Attribute::ByRef => AttributeModel::ByRef,
            Attribute::Enum => AttributeModel::Enum,
            Attribute::Error => AttributeModel::Error,
            Attribute::Name(n) => AttributeModel::Name(n@),
            Attribute::SelfType(s) => AttributeModel::SelfType(*s),
            Attribute::Threadsafe => AttributeModel::Threadsafe,
            Attribute::Throws(n) => AttributeModel::Throws(n@),
            Attribute::External(n) => AttributeModel::External(n@),
            Attribute::Custom => AttributeModel::Custom,
        }
    }
}

impl Clone for Attribute {
    fn clone(&self) -> (r: Attribute)
        ensures
            r@ == self@,
    {
        match self {
            Attribute::ByRef => Attribute::ByRef,
            Attribute::Enum => Attribute::Enum,
            Attribute::Error => Attribute::Error,
            Attribute::Name(n) => Attribute::Name(n.clone()),
            Attribute::SelfType(s) => Attribute::SelfType(*s),
            Attribute::Threadsafe => Attribute::Threadsafe,
            Attribute::Throws(n) => Attribute::Throws(n.clone()),
            Attribute::External(n) => Attribute::External(n.clone()),
            Attribute::Custom => Attribute::Custom,
        }
    }
}

/// The kinds of declaration that take attributes.
#[derive(Debug, Clone, Copy, PartialEq, Eq, Hash, Structural)]
pub enum AttributeTarget {
    Enum,
    Function,
    Argument,
    Interface,
    Constructor,
    Method,
    Typedef,
}

/// Whether a declaration of kind `target` takes the attribute.
pub open spec fn supports(target: AttributeTarget, a: AttributeModel) -> bool {
    match target {
        AttributeTarget::Enum => a is Error,
        AttributeTarget::Function => a is Throws,
        AttributeTarget::Argument => a is ByRef,
        AttributeTarget::Interface => a is Enum || a is Error || a is Threadsafe,
        AttributeTarget::Constructor => a is Throws || a is Name,
        AttributeTarget::Method => a is Throws || a is SelfType,
        AttributeTarget::Typedef => a is External || a is Custom,
    }
}

/// The attribute that is written as `raw`, if it is one of those that exist.
pub open spec fn recognize(raw: RawAttribute) -> Option<AttributeModel> {
    match raw.value {
        None => if raw.name@ == "ByRef"@ {
            Some(AttributeModel::ByRef)
        } else if raw.name@ == "Enum"@ {
            Some(AttributeModel::Enum)
        } else if raw.name@ == "Error"@ {
            Some(AttributeModel::Error)
        } else if raw.name@ == "Threadsafe"@ {
            Some(AttributeModel::Threadsafe)
        } else if raw.name@ == "Custom"@ {
            Some(AttributeModel::Custom)
        } else {
            None
        },
        Some(v) => if raw.name@ == "Name"@ {
            Some(AttributeModel::Name(v@))
        } else if raw.name@ == "Throws"@ {
            Some(AttributeModel::Throws(v@))
        } else if raw.name@ == "Self"@ {
            if v@ == "ByArc"@ {
                Some(AttributeModel::SelfType(SelfType::ByArc))
            } else {
                None
            }
        } else if raw.name@ == "External"@ {
            Some(AttributeModel::External(v@))
        } else {
            None
        },
    }
}

/// The attribute that `raw` gives to a declaration of kind `target`, or the
/// failure that names it.
pub open spec fn accept(target: AttributeTarget, raw: RawAttribute) -> Result<
    AttributeModel,
    Failure,
> {
    match recognize(raw) {
        Some(a) if supports(target, a) => Ok(a),
        _ => Err(Failure::UnsupportedAttribute(raw.name@)),
    }
}

/// The attributes that a list gives to a declaration of kind `target`, or the
/// failure that names the first attribute in the list that the kind does not take.
/// A declaration without a list has no attributes.
pub open spec fn accept_all(target: AttributeTarget, raw: Option<Vec<RawAttribute>>) -> Result<
    Seq<AttributeModel>,
    Failure,
> {
    match raw {
        None => Ok(Seq::empty()),
        Some(list) => try_map(list@, |r: RawAttribute| accept(target, r)),
    }
}

/// The views of a list of attributes.
pub open spec fn attribute_models(attrs: Seq<Attribute>) -> Seq<AttributeModel> {
    attrs.map_values(|a: Attribute| a@)
}

/// The attributes that carry a name.
#[derive(Debug, Clone, Copy, PartialEq, Eq, Hash, Structural)]
pub enum Valued {
    Name,
    Throws,
    External,
}

impl AttributeModel {
    /// The name that the attribute carries under `key`.
    pub open spec fn value(self, key: Valued) -> Option<Seq<char>> {
        match (key, self) {
            (Valued::Name, AttributeModel::Name(n)) => Some(n),
            (Valued::Throws, AttributeModel::Throws(n)) => Some(n),
            (Valued::External, AttributeModel::External(n)) => Some(n),
            _ => None,
        }
    }
}

/// The name carried by the first attribute of a list that carries one under `key`.
pub open spec fn first_value(attrs: Seq<AttributeModel>, key: Valued) -> Option<Seq<char>>
    decreases attrs.len(),
{
    if attrs.len() == 0 {
        None
    } else {
        match attrs[0].value(key) {
            Some(n) => Some(n),
            None => first_value(attrs.drop_first(), key),
        }
    }
}

/// The error named by the first `Throws` attribute.
pub open spec fn throws_of(attrs: Seq<AttributeModel>) -> Option<Seq<char>> {
    first_value(attrs, Valued::Throws)
}

/// The name given by the first `Name` attribute.
pub open spec fn name_of(attrs: Seq<AttributeModel>) -> Option<Seq<char>> {
    first_value(attrs, Valued::Name)
}

/// The crate named by the first `External` attribute.
pub open spec fn crate_of(attrs: Seq<AttributeModel>) -> Option<Seq<char>> {
    first_value(attrs, Valued::External)
}

/// A copy of a list of attributes.
pub(crate) fn clone_attributes(attrs: &Vec<Attribute>) -> (r: Vec<Attribute>)
    ensures
        attribute_models(r@) == attribute_models(attrs@),
{
    let mut out: Vec<Attribute> = Vec::new();
    let mut i: usize = 0;
    while i < attrs.len()
        invariant
            i <= attrs@.len(),
            out@.len() == i,
            forall|j: int| 0 <= j < i ==> out@[j]@ == attrs@[j]@,
        decreases attrs@.len() - i,
    {
        out.push(attrs[i].clone());
        i += 1;
    }
    assert(attribute_models(out@) =~= attribute_models(attrs@));
    out
}

/// Whether the list holds the attribute `wanted`, which carries no name.
pub(crate) fn has_attribute(attrs: &Vec<Attribute>, wanted: &Attribute) -> (r: bool)
    requires
        wanted@ is ByRef || wanted@ is Enum || wanted@ is Error || wanted@ is Threadsafe
            || wanted@ is Custom || wanted@ is SelfType,
    ensures
        r == attribute_models(attrs@).contains(wanted@),
{
    let mut i: usize = 0;
    while i < attrs.len()
        invariant
            i <= attrs@.len(),
            wanted@ is ByRef || wanted@ is Enum || wanted@ is Error || wanted@ is Threadsafe
                || wanted@ is Custom || wanted@ is SelfType,
            forall|j: int| 0 <= j < i ==> attribute_models(attrs@)[j] != wanted@,
        decreases attrs@.len() - i,
    {
        let hit = match (&attrs[i], wanted) {
            (Attribute::ByRef, Attribute::ByRef) => true,
            (Attribute::Enum, Attribute::Enum) => true,
            (Attribute::Error, Attribute::Error) => true,
            (Attribute::Threadsafe, Attribute::Threadsafe) => true,
            (Attribute::Custom, Attribute::Custom) => true,
            (Attribute::SelfType(SelfType::ByArc), Attribute::SelfType(SelfType::ByArc)) => true,
            _ => false,
        };
        if hit {
            assert(attribute_models(attrs@)[i as int] == wanted@);
            return true;
        }
        i += 1;
    }
    false
}

/// The name carried by the first attribute of the list that carries one under `key`.
pub(crate) fn find_value(attrs: &Vec<Attribute>, key: Valued) -> (r: Option<&str>)
    ensures
        r is Some <==> first_value(attribute_models(attrs@), key) is Some,
        r matches Some(n) ==> Some(n@) == first_value(attribute_models(attrs@), key),
{
    let ghost all = attribute_models(attrs@);
    let mut i: usize = 0;
    assert(all.skip(0) =~= all);
    while i < attrs.len()
        invariant
            i <= attrs@.len(),
            all == attribute_models(attrs@),
            first_value(all, key) == first_value(all.skip(i as int), key),
        decreases attrs@.len() - i,
    {
        proof {
            assert(all.skip(i as int).drop_first() =~= all.skip(i as int + 1));
            assert(all.skip(i as int)[0] == attrs@[i as int]@);
        }
        match (key, &attrs[i]) {
            (Valued::Name, Attribute::Name(n)) => {
                return Some(n.as_str());
            },
            (Valued::Throws, Attribute::Throws(n)) => {
                return Some(n.as_str());
            },
            (Valued::External, Attribute::External(n)) => {
                return Some(n.as_str());
            },
            _ => {},
        }
        i += 1;
    }
    assert(all.skip(i as int) =~= Seq::empty());
    None
}

impl Attribute {
    pub fn is_error(&self) -> (r: bool)
        ensures
            r == (self@ is Error),
    {
        matches!(self, Attribute::Error)
    }

    pub fn is_enum(&self) -> (r: bool)
        ensures
            r == (self@ is Enum),
    {
        matches!(self, Attribute::Enum)
    }

    /// Reads one attribute of a declaration of kind `target`.
    pub fn parse(target: AttributeTarget, raw: &RawAttribute) -> (r: Result<
        Attribute,
        InterfaceError,
    >)
        ensures
            match accept(target, *raw) {
                Ok(a) => r is Ok && r->Ok_0@ == a,
                Err(f) => r is Err && r->Err_0@ == f,
            },
    {
        let name = raw.name.as_str();
        let found = match &raw.value {
            None => {
                if str_eq(name, "ByRef") {
                    Some(Attribute::ByRef)
                } else if str_eq(name, "Enum") {
                    Some(Attribute::Enum)
                } else if str_eq(name, "Error") {
                    Some(Attribute::Error)
                } else if str_eq(name, "Threadsafe") {
                    Some(Attribute::Threadsafe)
                } else if str_eq(name, "Custom") {
                    Some(Attribute::Custom)
                } else {
                    None
                }
            },
            Some(v) => {
                if str_eq(name, "Name") {
                    Some(Attribute::Name(v.clone()))
                } else if str_eq(name, "Throws") {
                    Some(Attribute::Throws(v.clone()))
                } else if str_eq(name, "Self") {
                    if str_eq(v.as_str(), "ByArc") {
                        Some(Attribute::SelfType(SelfType::ByArc))
                    } else {
                        None
                    }
                } else if str_eq(name, "External") {
                    Some(Attribute::External(v.clone()))
                } else {
                    None
                }
            },
        };
        match found {
            Some(a) => {
                let fits = match target {
                    AttributeTarget::Enum => matches!(a, Attribute::Error),
                    AttributeTarget::Function => matches!(a, Attribute::Throws(_)),
                    AttributeTarget::Argument => matches!(a, Attribute::ByRef),
                    AttributeTarget::Interface => matches!(
                        a,
                        Attribute::Enum | Attribute::Error | Attribute::Threadsafe
                    ),
                    AttributeTarget::Constructor => matches!(
                        a,
                        Attribute::Throws(_) | Attribute::Name(_)
                    ),
                    AttributeTarget::Method => matches!(
                        a,
                        Attribute::Throws(_) | Attribute::SelfType(_)
                    ),
                    AttributeTarget::Typedef => matches!(a, Attribute::External(_) | Attribute::Custom),
                };
                if fits {
                    Ok(a)
                } else {
                    Err(InterfaceError::UnsupportedAttribute(raw.name.clone()))
                }
            },
            None => Err(InterfaceError::UnsupportedAttribute(raw.name.clone())),
        }
    }
}

/// Reads the attributes of a declaration of kind `target`.
pub fn parse_attributes(target: AttributeTarget, raw: &Option<Vec<RawAttribute>>) -> (r: Result<
    Vec<Attribute>,
    InterfaceError,
>)
    ensures
        match accept_all(target, *raw) {
            Ok(attrs) => r is Ok && attribute_models(r->Ok_0@) == attrs,
            Err(f) => r is Err && r->Err_0@ == f,
        },
{
    let mut out: Vec<Attribute> = Vec::new();
    match raw {
        None => {
            assert(attribute_models(out@) =~= Seq::empty());
            Ok(out)
        },
        Some(list) => {
            let ghost step = |r: RawAttribute| accept(target, r);
            let mut i: usize = 0;
            proof {
                lemma_try_map_done(list@, step);
                assert(attribute_models(out@) =~= Seq::empty());
            }
            while i < list.len()
                invariant
                    i <= list@.len(),
                    step == (|r: RawAttribute| accept(target, r)),
                    accept_all(target, *raw) == try_map(list@, step),
                    try_map(list@.take(i as int), step) == Ok::<Seq<AttributeModel>, Failure>(
                        attribute_models(out@),
                    ),
                decreases list@.len() - i,
            {
                proof {
                    lemma_try_map_step(list@, step, i as int);
                    assert(step(list@[i as int]) == accept(target, list@[i as int]));
                }
                let ghost before = attribute_models(out@);
                match Attribute::parse(target, &list[i]) {
                    Ok(a) => {
                        out.push(a);
                        assert(attribute_models(out@) =~= before.push(a@));
                    },
                    Err(f) => {
                        proof {
                            lemma_try_map_failure(list@, step, i as int + 1);
                        }
                        return Err(f);
                    },
                }
                i += 1;
            }
            proof {
                lemma_try_map_done(list@, step);
            }
            Ok(out)
        },
    }
}

/// The attributes of an `enum`: `[Error]` marks it as an error family.
#[derive(Debug, PartialEq, Eq, Hash)]
pub struct EnumAttributes(pub(crate) Vec<Attribute>);

impl View for EnumAttributes {
    type V = Seq<AttributeModel>;

    open(crate) spec fn view(&self) -> Seq<AttributeModel> {
        attribute_models(self.0@)
    }
}

impl Clone for EnumAttributes {
    fn clone(&self) -> (r: EnumAttributes)
        ensures
            r@ == self@,
    {
        EnumAttributes(clone_attributes(&self.0))
    }
}

impl Default for EnumAttributes {
    fn default() -> (r: EnumAttributes)
        ensures
            r@ == Seq::<AttributeModel>::empty(),
    {
        let r = EnumAttributes(Vec::new());
        assert(r@ =~= Seq::<AttributeModel>::empty());
        r
    }
}

impl EnumAttributes {
    /// Reads the attribute list of a declaration. A declaration without a list has
    /// no attributes; a list with an attribute that the declaration does not take
    /// is refused.
    pub fn try_from(value: &Option<Vec<RawAttribute>>) -> (r: Result<EnumAttributes, InterfaceError>)
        ensures
            match accept_all(AttributeTarget::Enum, *value) {
                Ok(attrs) => r is Ok && r->Ok_0@ == attrs,
                Err(f) => r is Err && r->Err_0@ == f,
            },
    {
        match parse_attributes(AttributeTarget::Enum, value) {
            Ok(attrs) => Ok(EnumAttributes(attrs)),
            Err(f) => Err(f),
        }
    }

    pub fn contains_error_attr(&self) -> (r: bool)
        ensures
            r == self@.contains(AttributeModel::Error),
    {
        has_attribute(&self.0, &Attribute::Error)
    }
}

/// The attributes of a function: `[Throws=Name]` names the error that it can throw.
#[derive(Debug, PartialEq, Eq, Hash)]
pub struct FunctionAttributes(pub(crate) Vec<Attribute>);

impl View for FunctionAttributes {
    type V = Seq<AttributeModel>;

    open(crate) spec fn view(&self) -> Seq<AttributeModel> {
        attribute_models(self.0@)
    }
}

impl Clone for FunctionAttributes {
    fn clone(&self) -> (r: FunctionAttributes)
        ensures
            r@ == self@,
    {
        FunctionAttributes(clone_attributes(&self.0))
    }
}

impl Default for FunctionAttributes {
    fn default() -> (r: FunctionAttributes)
        ensures
            r@ == Seq::<AttributeModel>::empty(),
    {
        let r = FunctionAttributes(Vec::new());
        assert(r@ =~= Seq::<AttributeModel>::empty());
        r
    }
}

impl FunctionAttributes {
    /// Reads the attribute list of a declaration. A declaration without a list has
    /// no attributes; a list with an attribute that the declaration does not take
    /// is refused.
    pub fn try_from(value: &Option<Vec<RawAttribute>>) -> (r: Result<FunctionAttributes, InterfaceError>)
        ensures
            match accept_all(AttributeTarget::Function, *value) {
                Ok(attrs) => r is Ok && r->Ok_0@ == attrs,
                Err(f) => r is Err && r->Err_0@ == f,
            },
    {
        match parse_attributes(AttributeTarget::Function, value) {
            Ok(attrs) => Ok(FunctionAttributes(attrs)),
            Err(f) => Err(f),
        }
    }

    pub fn get_throws_err(&self) -> (r: Option<&str>)
        ensures
            r is Some <==> throws_of(self@) is Some,
            r matches Some(n) ==> Some(n@) == throws_of(self@),
    {
        find_value(&self.0, Valued::Throws)
    }
}

/// The attributes of an argument: `[ByRef]` passes it by reference.
#[derive(Debug, PartialEq, Eq, Hash)]
pub struct ArgumentAttributes(pub(crate) Vec<Attribute>);

impl View for ArgumentAttributes {
    type V = Seq<AttributeModel>;

    open(crate) spec fn view(&self) -> Seq<AttributeModel> {
        attribute_models(self.0@)
    }
}

impl Clone for ArgumentAttributes {
    fn clone(&self) -> (r: ArgumentAttributes)
        ensures
            r@ == self@,
    {
        ArgumentAttributes(clone_attributes(&self.0))
    }
}

impl Default for ArgumentAttributes {
    fn default() -> (r: ArgumentAttributes)
        ensures
            r@ == Seq::<AttributeModel>::empty(),
    {
        let r = ArgumentAttributes(Vec::new());
        assert(r@ =~= Seq::<AttributeModel>::empty());
        r
    }
}

impl ArgumentAttributes {
    /// Reads the attribute list of a declaration. A declaration without a list has
    /// no attributes; a list with an attribute that the declaration does not take
    /// is refused.
    pub fn try_from(value: &Option<Vec<RawAttribute>>) -> (r: Result<ArgumentAttributes, InterfaceError>)
        ensures
            match accept_all(AttributeTarget::Argument, *value) {
                Ok(attrs) => r is Ok && r->Ok_0@ == attrs,
                Err(f) => r is Err && r->Err_0@ == f,
            },
    {
        match parse_attributes(AttributeTarget::Argument, value) {
            Ok(attrs) => Ok(ArgumentAttributes(attrs)),
            Err(f) => Err(f),
        }
    }

    pub fn by_ref(&self) -> (r: bool)
        ensures
            r == self@.contains(AttributeModel::ByRef),
    {
        has_attribute(&self.0, &Attribute::ByRef)
    }
}

/// The attributes of an `interface`: `[Enum]` and `[Error]` read it as a tagged union, `[Threadsafe]` is a marker without effect.
#[derive(Debug, PartialEq, Eq, Hash)]
pub struct InterfaceAttributes(pub(crate) Vec<Attribute>);

impl View for InterfaceAttributes {
    type V = Seq<AttributeModel>;

    open(crate) spec fn view(&self) -> Seq<AttributeModel> {
        attribute_models(self.0@)
    }
}

impl Clone for InterfaceAttributes {
    fn clone(&self) -> (r: InterfaceAttributes)
        ensures
            r@ == self@,
    {
        InterfaceAttributes(clone_attributes(&self.0))
    }
}

impl Default for InterfaceAttributes {
    fn default() -> (r: InterfaceAttributes)
        ensures
            r@ == Seq::<AttributeModel>::empty(),
    {
        let r = InterfaceAttributes(Vec::new());
        assert(r@ =~= Seq::<AttributeModel>::empty());
        r
    }
}

impl InterfaceAttributes {
    /// Reads the attribute list of a declaration. A declaration without a list has
    /// no attributes; a list with an attribute that the declaration does not take
    /// is refused.
    pub fn try_from(value: &Option<Vec<RawAttribute>>) -> (r: Result<InterfaceAttributes, InterfaceError>)
        ensures
            match accept_all(AttributeTarget::Interface, *value) {
                Ok(attrs) => r is Ok && r->Ok_0@ == attrs,
                Err(f) => r is Err && r->Err_0@ == f,
            },
    {
        match parse_attributes(AttributeTarget::Interface, value) {
            Ok(attrs) => Ok(InterfaceAttributes(attrs)),
            Err(f) => Err(f),
        }
    }

    pub fn contains_enum_attr(&self) -> (r: bool)
        ensures
            r == self@.contains(AttributeModel::Enum),
    {
        has_attribute(&self.0, &Attribute::Enum)
    }

    pub fn contains_error_attr(&self) -> (r: bool)
        ensures
            r == self@.contains(AttributeModel::Error),
    {
        has_attribute(&self.0, &Attribute::Error)
    }

    pub fn threadsafe(&self) -> (r: bool)
        ensures
            r == self@.contains(AttributeModel::Threadsafe),
    {
        has_attribute(&self.0, &Attribute::Threadsafe)
    }
}

/// The attributes of a constructor: `[Throws=Name]` names the error that it can throw, `[Name=Other]` names an alternate constructor.
#[derive(Debug, PartialEq, Eq, Hash)]
pub struct ConstructorAttributes(pub(crate) Vec<Attribute>);

impl View for ConstructorAttributes {
    type V = Seq<AttributeModel>;

    open(crate) spec fn view(&self) -> Seq<AttributeModel> {
        attribute_models(self.0@)
    }
}

impl Clone for ConstructorAttributes {
    fn clone(&self) -> (r: ConstructorAttributes)
        ensures
            r@ == self@,
    {
        ConstructorAttributes(clone_attributes(&self.0))
    }
}

impl Default for ConstructorAttributes {
    fn default() -> (r: ConstructorAttributes)
        ensures
            r@ == Seq::<AttributeModel>::empty(),
    {
        let r = ConstructorAttributes(Vec::new());
        assert(r@ =~= Seq::<AttributeModel>::empty());
        r
    }
}

impl ConstructorAttributes {
    /// Reads the attribute list of a declaration. A declaration without a list has
    /// no attributes; a list with an attribute that the declaration does not take
    /// is refused.
    pub fn try_from(value: &Option<Vec<RawAttribute>>) -> (r: Result<ConstructorAttributes, InterfaceError>)
        ensures
            match accept_all(AttributeTarget::Constructor, *value) {
                Ok(attrs) => r is Ok && r->Ok_0@ == attrs,
                Err(f) => r is Err && r->Err_0@ == f,
            },
    {
        match parse_attributes(AttributeTarget::Constructor, value) {
            Ok(attrs) => Ok(ConstructorAttributes(attrs)),
            Err(f) => Err(f),
        }
    }

    pub fn get_throws_err(&self) -> (r: Option<&str>)
        ensures
            r is Some <==> throws_of(self@) is Some,
            r matches Some(n) ==> Some(n@) == throws_of(self@),
    {
        find_value(&self.0, Valued::Throws)
    }

    pub fn get_name(&self) -> (r: Option<&str>)
        ensures
            r is Some <==> name_of(self@) is Some,
            r matches Some(n) ==> Some(n@) == name_of(self@),
    {
        find_value(&self.0, Valued::Name)
    }
}

/// The attributes of a method: `[Throws=Name]` names the error that it can throw, `[Self=ByArc]` hands it its receiver as a shared handle.
#[derive(Debug, PartialEq, Eq, Hash)]
pub struct MethodAttributes(pub(crate) Vec<Attribute>);

impl View for MethodAttributes {
    type V = Seq<AttributeModel>;

    open(crate) spec fn view(&self) -> Seq<AttributeModel> {
        attribute_models(self.0@)
    }
}

impl Clone for MethodAttributes {
    fn clone(&self) -> (r: MethodAttributes)
        ensures
            r@ == self@,
    {
        MethodAttributes(clone_attributes(&self.0))
    }
}

impl Default for MethodAttributes {
    fn default() -> (r: MethodAttributes)
        ensures
            r@ == Seq::<AttributeModel>::empty(),
    {
        let r = MethodAttributes(Vec::new());
        assert(r@ =~= Seq::<AttributeModel>::empty());
        r
    }
}

impl MethodAttributes {
    /// Reads the attribute list of a declaration. A declaration without a list has
    /// no attributes; a list with an attribute that the declaration does not take
    /// is refused.
    pub fn try_from(value: &Option<Vec<RawAttribute>>) -> (r: Result<MethodAttributes, InterfaceError>)
        ensures
            match accept_all(AttributeTarget::Method, *value) {
                Ok(attrs) => r is Ok && r->Ok_0@ == attrs,
                Err(f) => r is Err && r->Err_0@ == f,
            },
    {
        match parse_attributes(AttributeTarget::Method, value) {
            Ok(attrs) => Ok(MethodAttributes(attrs)),
            Err(f) => Err(f),
        }
    }

    pub fn get_throws_err(&self) -> (r: Option<&str>)
        ensures
            r is Some <==> throws_of(self@) is Some,
            r matches Some(n) ==> Some(n@) == throws_of(self@),
    {
        find_value(&self.0, Valued::Throws)
    }

    pub fn get_self_by_arc(&self) -> (r: bool)
        ensures
            r == self@.contains(AttributeModel::SelfType(SelfType::ByArc)),
    {
        has_attribute(&self.0, &Attribute::SelfType(SelfType::ByArc))
    }
}

/// The attributes of a `typedef`: `[External=crate]` names the crate that a type lives in, `[Custom]` marks a custom type.
#[derive(Debug, PartialEq, Eq, Hash)]
pub struct TypedefAttributes(pub(crate) Vec<Attribute>);

impl View for TypedefAttributes {
    type V = Seq<AttributeModel>;

    open(crate) spec fn view(&self) -> Seq<AttributeModel> {
        attribute_models(self.0@)
    }
}

impl Clone for TypedefAttributes {
    fn clone(&self) -> (r: TypedefAttributes)
        ensures
            r@ == self@,
    {
        TypedefAttributes(clone_attributes(&self.0))
    }
}

impl Default for TypedefAttributes {
    fn default() -> (r: TypedefAttributes)
        ensures
            r@ == Seq::<AttributeModel>::empty(),
    {
        let r = TypedefAttributes(Vec::new());
        assert(r@ =~= Seq::<AttributeModel>::empty());
        r
    }
}

impl TypedefAttributes {
    /// Reads the attribute list of a declaration. A declaration without a list has
    /// no attributes; a list with an attribute that the declaration does not take
    /// is refused.
    pub fn try_from(value: &Option<Vec<RawAttribute>>) -> (r: Result<TypedefAttributes, InterfaceError>)
        ensures
            match accept_all(AttributeTarget::Typedef, *value) {
                Ok(attrs) => r is Ok && r->Ok_0@ == attrs,
                Err(f) => r is Err && r->Err_0@ == f,
            },
    {
        match parse_attributes(AttributeTarget::Typedef, value) {
            Ok(attrs) => Ok(TypedefAttributes(attrs)),
            Err(f) => Err(f),
        }
    }

    /// The crate that the type lives in, where an `External` attribute names one.
    pub fn crate_name(&self) -> (r: Option<&str>)
        ensures
            r is Some <==> crate_of(self@) is Some,
            r matches Some(n) ==> Some(n@) == crate_of(self@),
    {
        find_value(&self.0, Valued::External)
    }

    /// The crate that the type lives in, for a set with an `External` attribute.
    pub fn get_crate_name(&self) -> (r: String)
        requires
            crate_of(self@) is Some,
        ensures
            Some(r@) == crate_of(self@),
    {
        match self.crate_name() {
            Some(n) => n.to_owned(),
            None => String::new(),
        }
    }

    pub fn is_custom(&self) -> (r: bool)
        ensures
            r == self@.contains(AttributeModel::Custom),
    {
        has_attribute(&self.0, &Attribute::Custom)
    }
}

} // verus!
