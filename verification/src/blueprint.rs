//! The properties and pins that blueprints add to an entity: materials,
//! extended class blueprints and UI control blueprints.

use crate::cppt::{colour_string, colour_text};
use crate::model::{ErrorView, IntellisenseError, PropValue, PropertyRow, RowView, ValueView};
use crate::text::owned;
use vstd::prelude::*;

verus! {

/// The value of one material property.
///
/// Colour channels are already scaled to bytes; scalar and vector values
/// are JSON text.
#[derive(Debug)]
pub enum MaterialValue {
    Texture(Option<String>),
    ColourRgb(u8, u8, u8),
    ColourRgba(u8, u8, u8, u8),
    Float(String),
    Vector2(String),
    Vector3(String),
    Vector4(String),
}

/// One property of a material.
#[derive(Debug)]
pub struct MaterialProperty {
    pub name: String,
    pub value: MaterialValue,
}

/// The row that lets a material property's modifier operation be set.
pub open spec fn modifier_row(name: Seq<char>) -> RowView {
    (
        name + "_op"@,
        "IRenderMaterialEntity.EModifierOperation"@,
        ValueView::Text("eLeave"@),
        false,
    )
}

/// The rows that one material property contributes.
///
/// A texture contributes itself (a resource reference flagged `5F`, or
/// null), an `_enab` switch and a `_dest` template reference; every other
/// value contributes itself and its modifier operation.
pub open spec fn material_property_rows(p: MaterialProperty) -> Seq<RowView> {
    let n = p.name@;
    match p.value {
        MaterialValue::Texture(t) => seq![
            (
                n,
                "ZRuntimeResourceID"@,
                match t {
                    Some(x) => ValueView::ResourceRef { resource: x@, flag: "5F"@ },
                    None => ValueView::Null,
                },
                false,
            ),
            (n + "_enab"@, "bool"@, ValueView::Bool(false), false),
            (n + "_dest"@, "SEntityTemplateReference"@, ValueView::Null, false),
        ],
        MaterialValue::ColourRgb(r, g, b) => seq![
            (n, "SColorRGB"@, ValueView::Text(colour_text(seq![r, g, b])), false),
            modifier_row(n),
        ],
        MaterialValue::ColourRgba(r, g, b, a) => seq![
            (n, "SColorRGBA"@, ValueView::Text(colour_text(seq![r, g, b, a])), false),
            modifier_row(n),
        ],
        MaterialValue::Float(j) => seq![(n, "float32"@, ValueView::Json(j@), false), modifier_row(n)],
        MaterialValue::Vector2(j) => seq![
            (n, "SVector2"@, ValueView::Json(j@), false),
            modifier_row(n),
        ],
        MaterialValue::Vector3(j) => seq![
            (n, "SVector3"@, ValueView::Json(j@), false),
            modifier_row(n),
        ],
        MaterialValue::Vector4(j) => seq![
            (n, "SVector4"@, ValueView::Json(j@), false),
            modifier_row(n),
        ],
    }
}

/// The rows of all properties of a material, in order.
pub open spec fn material_rows(ps: Seq<MaterialProperty>) -> Seq<RowView>
    decreases ps.len(),
{
    if ps.len() == 0 {
        Seq::empty()
    } else {
        material_rows(ps.drop_last()) + material_property_rows(ps.last())
    }
}

/// The names of the material properties that are not textures: the input
/// pins a material adds.
pub open spec fn material_pins(ps: Seq<MaterialProperty>) -> Seq<Seq<char>>
    decreases ps.len(),
{
    if ps.len() == 0 {
        Seq::empty()
    } else {
        let rest = material_pins(ps.drop_last());
        match ps.last().value {
            MaterialValue::Texture(_) => rest,
            _ => rest.push(ps.last().name@),
        }
    }
}

fn modifier_row_of(name: &String) -> (r: PropertyRow)
    ensures
        r.deep_view() == modifier_row(name@),
{
    let mut n = name.clone();
    crate::text::push_str(&mut n, "_op");
    (n, owned("IRenderMaterialEntity.EModifierOperation"), PropValue::Text(owned("eLeave")), false)
}

fn bytes3(r: u8, g: u8, b: u8) -> (v: Vec<u8>)
    ensures
        v@ == seq![r, g, b],
{
    let mut v: Vec<u8> = Vec::new();
    v.push(r);
    v.push(g);
    v.push(b);
    assert(v@ =~= seq![r, g, b]);
    v
}

/// The rows that one material property contributes.
pub fn material_property_rows_of(p: &MaterialProperty) -> (r: Vec<PropertyRow>)
    ensures
        r.deep_view() == material_property_rows(*p),
{
    let mut rows: Vec<PropertyRow> = Vec::new();
    let n = &p.name;
    match &p.value {
        MaterialValue::Texture(t) => {
            let v = match t {
                Some(x) => PropValue::ResourceRef { resource: x.clone(), flag: owned("5F") },
                None => PropValue::Null,
            };
            rows.push((n.clone(), owned("ZRuntimeResourceID"), v, false));
            let mut enab = n.clone();
            crate::text::push_str(&mut enab, "_enab");
            rows.push((enab, owned("bool"), PropValue::Bool(false), false));
            let mut dest = n.clone();
            crate::text::push_str(&mut dest, "_dest");
            rows.push((dest, owned("SEntityTemplateReference"), PropValue::Null, false));
        },
        MaterialValue::ColourRgb(r, g, b) => {
            let bytes = bytes3(*r, *g, *b);
            rows.push((n.clone(), owned("SColorRGB"), PropValue::Text(colour_string(&bytes)), false));
            rows.push(modifier_row_of(n));
        },
        MaterialValue::ColourRgba(r, g, b, a) => {
            let mut bytes = bytes3(*r, *g, *b);
            bytes.push(*a);
            assert(bytes@ =~= seq![*r, *g, *b, *a]);
            rows.push(
                (n.clone(), owned("SColorRGBA"), PropValue::Text(colour_string(&bytes)), false),
            );
            rows.push(modifier_row_of(n));
        },
        MaterialValue::Float(j) => {
            rows.push((n.clone(), owned("float32"), PropValue::Json(j.clone()), false));
            rows.push(modifier_row_of(n));
        },
        MaterialValue::Vector2(j) => {
            rows.push((n.clone(), owned("SVector2"), PropValue::Json(j.clone()), false));
            rows.push(modifier_row_of(n));
        },
        MaterialValue::Vector3(j) => {
            rows.push((n.clone(), owned("SVector3"), PropValue::Json(j.clone()), false));
            rows.push(modifier_row_of(n));
        },
        MaterialValue::Vector4(j) => {
            rows.push((n.clone(), owned("SVector4"), PropValue::Json(j.clone()), false));
            rows.push(modifier_row_of(n));
        },
    }
    assert(rows.deep_view() =~= material_property_rows(*p));
    rows
}

/// The rows of all properties of a material, in order.
pub fn material_rows_of(ps: &Vec<MaterialProperty>) -> (r: Vec<PropertyRow>)
    ensures
        r.deep_view() == material_rows(ps@),
{
    let mut rows: Vec<PropertyRow> = Vec::new();
    assert(ps@.take(0) =~= Seq::<MaterialProperty>::empty());
    assert(rows.deep_view() =~= Seq::<RowView>::empty());
    let mut i: usize = 0;
    while i < ps.len()
        invariant
            i <= ps.len(),
            rows.deep_view() == material_rows(ps@.take(i as int)),
        decreases ps.len() - i,
    {
        assert(ps@.take(i + 1).drop_last() =~= ps@.take(i as int));
        let more = material_property_rows_of(&ps[i]);
        crate::model::append_rows(&mut rows, more);
        i += 1;
    }
    assert(ps@.take(ps.len() as int) =~= ps@);
    rows
}

/// The input pins a material adds: its non-texture property names.
pub fn material_pins_of(ps: &Vec<MaterialProperty>) -> (r: Vec<String>)
    ensures
        r.deep_view() == material_pins(ps@),
{
    let mut names: Vec<String> = Vec::new();
    assert(ps@.take(0) =~= Seq::<MaterialProperty>::empty());
    assert(names.deep_view() =~= Seq::<Seq<char>>::empty());
    let mut i: usize = 0;
    while i < ps.len()
        invariant
            i <= ps.len(),
            names.deep_view() == material_pins(ps@.take(i as int)),
        decreases ps.len() - i,
    {
        assert(ps@.take(i + 1).drop_last() =~= ps@.take(i as int));
        match &ps[i].value {
            MaterialValue::Texture(_) => {},
            _ => {
                let ghost before = names.deep_view();
                names.push(ps[i].name.clone());
                assert(names.deep_view() =~= before.push(ps[i as int].name@));
            },
        }
        i += 1;
    }
    assert(ps@.take(ps.len() as int) =~= ps@);
    names
}

} // verus!

verus! {

/// The type of a property that an extended class blueprint declares.
#[derive(Debug)]
pub enum ExtendedPropertyType {
    ResourcePtr,
    Int32,
    Uint32,
    Float,
    Text,
    Bool,
    EntityRef,
    Variant,
}

/// One property that an extended class blueprint declares.
#[derive(Debug)]
pub struct EcpbProperty {
    pub name: String,
    pub property_type: ExtendedPropertyType,
}

/// The type name under which an extended property is shown.
pub open spec fn extended_type_name(t: ExtendedPropertyType) -> Seq<char> {
    match t {
        ExtendedPropertyType::ResourcePtr => "ZRuntimeResourceID"@,
        ExtendedPropertyType::Int32 => "int32"@,
        ExtendedPropertyType::Uint32 => "uint32"@,
        ExtendedPropertyType::Float => "float32"@,
        ExtendedPropertyType::Text => "ZString"@,
        ExtendedPropertyType::Bool => "bool"@,
        ExtendedPropertyType::EntityRef => "SEntityTemplateReference"@,
        ExtendedPropertyType::Variant => "ZVariant"@,
    }
}

/// The default value of an extended property: null for references and
/// variants, zero for numbers, the empty string and `false`.
pub open spec fn extended_default(t: ExtendedPropertyType) -> ValueView {
    match t {
        ExtendedPropertyType::ResourcePtr => ValueView::Null,
        ExtendedPropertyType::Int32 => ValueView::Int(0),
        ExtendedPropertyType::Uint32 => ValueView::Int(0),
        ExtendedPropertyType::Float => ValueView::Int(0),
        ExtendedPropertyType::Text => ValueView::Text(Seq::empty()),
        ExtendedPropertyType::Bool => ValueView::Bool(false),
        ExtendedPropertyType::EntityRef => ValueView::Null,
        ExtendedPropertyType::Variant => ValueView::Null,
    }
}

/// The rows that an extended class blueprint contributes, in order.
pub open spec fn extended_rows(ps: Seq<EcpbProperty>) -> Seq<RowView> {
    ps.map_values(
        |p: EcpbProperty|
            (p.name@, extended_type_name(p.property_type), extended_default(p.property_type), false),
    )
}

/// The row that one extended property contributes.
pub fn extended_row(p: &EcpbProperty) -> (r: PropertyRow)
    ensures
        r.deep_view() == (
            p.name@,
            extended_type_name(p.property_type),
            extended_default(p.property_type),
            false,
        ),
{
    let (t, v) = match p.property_type {
        ExtendedPropertyType::ResourcePtr => (owned("ZRuntimeResourceID"), PropValue::Null),
        ExtendedPropertyType::Int32 => (owned("int32"), PropValue::Int(0)),
        ExtendedPropertyType::Uint32 => (owned("uint32"), PropValue::Int(0)),
        ExtendedPropertyType::Float => (owned("float32"), PropValue::Int(0)),
        ExtendedPropertyType::Text => (owned("ZString"), PropValue::Text(String::new())),
        ExtendedPropertyType::Bool => (owned("bool"), PropValue::Bool(false)),
        ExtendedPropertyType::EntityRef => (owned("SEntityTemplateReference"), PropValue::Null),
        ExtendedPropertyType::Variant => (owned("ZVariant"), PropValue::Null),
    };
    (p.name.clone(), t, v, false)
}

/// The rows that an extended class blueprint contributes, in order.
pub fn extended_rows_of(ps: &Vec<EcpbProperty>) -> (r: Vec<PropertyRow>)
    ensures
        r.deep_view() == extended_rows(ps@),
{
    let mut rows: Vec<PropertyRow> = Vec::new();
    let mut i: usize = 0;
    while i < ps.len()
        invariant
            i <= ps.len(),
            rows.deep_view() == extended_rows(ps@.take(i as int)),
        decreases ps.len() - i,
    {
        let ghost before = rows.deep_view();
        let row = extended_row(&ps[i]);
        let ghost rv = row.deep_view();
        rows.push(row);
        assert(ps@.take(i + 1) =~= ps@.take(i as int).push(ps@[i as int]));
        assert(extended_rows(ps@.take(i + 1)) =~= extended_rows(ps@.take(i as int)).push(rv));
        assert(rows.deep_view() =~= before.push(rv));
        i += 1;
    }
    assert(ps@.take(ps.len() as int) =~= ps@);
    rows
}

/// One entry of a UI control blueprint: kind 0 is a property, kind 1 a
/// pin; properties carry a type code.
#[derive(Debug)]
pub struct UicbEntry {
    pub kind: u32,
    pub type_code: u8,
    pub name: String,
}

/// The type name registered for a UI property type code (the first
/// registration wins).
pub open spec fn uicb_type_name(types: Seq<(u8, String)>, code: u8) -> Option<Seq<char>>
    decreases types.len(),
{
    if types.len() == 0 {
        None
    } else if types[0].0 == code {
        Some(types[0].1@)
    } else {
        uicb_type_name(types.drop_first(), code)
    }
}

/// The default value given to a UI property of a type, where there is one.
pub open spec fn uicb_default(t: Seq<char>) -> Option<ValueView> {
    if t == "int32"@ {
        Some(ValueView::Int(0))
    } else if t == "float32"@ {
        Some(ValueView::Int(0))
    } else if t == "ZString"@ {
        Some(ValueView::Text(Seq::empty()))
    } else if t == "bool"@ {
        Some(ValueView::Bool(false))
    } else {
        None
    }
}

/// The row of one UI property entry, or why it has none.
pub open spec fn uicb_row(types: Seq<(u8, String)>, e: UicbEntry) -> Result<RowView, ErrorView> {
    match uicb_type_name(types, e.type_code) {
        None => Err(ErrorView::UnknownUicbPropertyType),
        Some(t) => match uicb_default(t) {
            None => Err(ErrorView::UnknownUicbValueType),
            Some(v) => Ok((e.name@, t, v, false)),
        },
    }
}

/// The rows that a UI control blueprint contributes: one per property
/// entry, in order; the first entry without a known type or default
/// decides the error.
pub open spec fn uicb_rows(types: Seq<(u8, String)>, es: Seq<UicbEntry>) -> Result<
    Seq<RowView>,
    ErrorView,
>
    decreases es.len(),
{
    if es.len() == 0 {
        Ok(Seq::empty())
    } else {
        match uicb_rows(types, es.drop_last()) {
            Err(e) => Err(e),
            Ok(acc) => if es.last().kind == 0 {
                match uicb_row(types, es.last()) {
                    Err(e) => Err(e),
                    Ok(r) => Ok(acc.push(r)),
                }
            } else {
                Ok(acc)
            },
        }
    }
}

/// Looking up one UI property by name: entries are visited in order, each
/// property entry must have a known type, and the first one named `name`
/// answers (failing if its type has no default).
pub open spec fn uicb_lookup(types: Seq<(u8, String)>, es: Seq<UicbEntry>, name: Seq<char>) -> Result<
    Option<(Seq<char>, ValueView, bool)>,
    ErrorView,
>
    decreases es.len(),
{
    if es.len() == 0 {
        Ok(None)
    } else {
        let e = es[0];
        if e.kind == 0 {
            match uicb_type_name(types, e.type_code) {
                None => Err(ErrorView::UnknownUicbPropertyType),
                Some(t) => if e.name@ == name {
                    match uicb_default(t) {
                        None => Err(ErrorView::UnknownUicbValueType),
                        Some(v) => Ok(Some((t, v, false))),
                    }
                } else {
                    uicb_lookup(types, es.drop_first(), name)
                },
            }
        } else {
            uicb_lookup(types, es.drop_first(), name)
        }
    }
}

/// The names of the pin entries of a UI control blueprint: input pins.
pub open spec fn uicb_pins(es: Seq<UicbEntry>) -> Seq<Seq<char>>
    decreases es.len(),
{
    if es.len() == 0 {
        Seq::empty()
    } else if es.last().kind == 1 {
        uicb_pins(es.drop_last()).push(es.last().name@)
    } else {
        uicb_pins(es.drop_last())
    }
}

/// The type name registered for a UI property type code.
pub fn uicb_type_name_of(types: &Vec<(u8, String)>, code: u8) -> (r: Option<String>)
    ensures
        match r {
            Some(t) => uicb_type_name(types@, code) == Some(t@),
            None => uicb_type_name(types@, code) == None::<Seq<char>>,
        },
{
    assert(types@.skip(0) =~= types@);
    let mut i: usize = 0;
    while i < types.len()
        invariant
            i <= types.len(),
            uicb_type_name(types@, code) == uicb_type_name(types@.skip(i as int), code),
        decreases types.len() - i,
    {
        assert(types@.skip(i as int).drop_first() =~= types@.skip(i + 1));
        if types[i].0 == code {
            return Some(types[i].1.clone());
        }
        i += 1;
    }
    None
}

/// The default value given to a UI property of type `t`.
pub fn uicb_default_of(t: &String) -> (r: Option<PropValue>)
    ensures
        match r {
            Some(v) => uicb_default(t@) == Some(v@),
            None => uicb_default(t@) == None::<ValueView>,
        },
{
    let s = t.as_str();
    if crate::text::same_text(s, "int32") {
        Some(PropValue::Int(0))
    } else if crate::text::same_text(s, "float32") {
        Some(PropValue::Int(0))
    } else if crate::text::same_text(s, "ZString") {
        Some(PropValue::Text(String::new()))
    } else if crate::text::same_text(s, "bool") {
        Some(PropValue::Bool(false))
    } else {
        None
    }
}

} // verus!

verus! {

/// The mathematical form of a row list or its error.
pub open spec fn rows_result(r: Result<Vec<PropertyRow>, IntellisenseError>) -> Result<
    Seq<RowView>,
    ErrorView,
> {
    match r {
        Ok(v) => Ok(v.deep_view()),
        Err(e) => Err(e@),
    }
}

/// Once the rows of a prefix of the entries fail, the rows of all entries
/// fail with the same error.
pub proof fn lemma_uicb_error_persists(types: Seq<(u8, String)>, es: Seq<UicbEntry>, k: int)
    requires
        0 <= k <= es.len(),
        uicb_rows(types, es.take(k)) is Err,
    ensures
        uicb_rows(types, es) == uicb_rows(types, es.take(k)),
    decreases es.len() - k,
{
    if k < es.len() {
        assert(es.take(k + 1).drop_last() =~= es.take(k));
        lemma_uicb_error_persists(types, es, k + 1);
    } else {
        assert(es.take(k) =~= es);
    }
}

/// The rows that a UI control blueprint contributes.
pub fn uicb_rows_of(types: &Vec<(u8, String)>, es: &Vec<UicbEntry>) -> (r: Result<
    Vec<PropertyRow>,
    IntellisenseError,
>)
    ensures
        rows_result(r) == uicb_rows(types@, es@),
{
    let mut rows: Vec<PropertyRow> = Vec::new();
    assert(es@.take(0) =~= Seq::<UicbEntry>::empty());
    assert(rows.deep_view() =~= Seq::<RowView>::empty());
    let mut i: usize = 0;
    while i < es.len()
        invariant
            i <= es.len(),
            uicb_rows(types@, es@.take(i as int)) == Ok::<Seq<RowView>, ErrorView>(
                rows.deep_view(),
            ),
        decreases es.len() - i,
    {
        assert(es@.take(i + 1).drop_last() =~= es@.take(i as int));
        let e = &es[i];
        if e.kind == 0 {
            let t = match uicb_type_name_of(types, e.type_code) {
                Some(t) => t,
                None => {
                    proof {
                        lemma_uicb_error_persists(types@, es@, i + 1);
                    }
                    return Err(IntellisenseError::UnknownUicbPropertyType);
                },
            };
            let v = match uicb_default_of(&t) {
                Some(v) => v,
                None => {
                    proof {
                        lemma_uicb_error_persists(types@, es@, i + 1);
                    }
                    return Err(IntellisenseError::UnknownUicbValueType);
                },
            };
            let ghost before = rows.deep_view();
            let row = (e.name.clone(), t, v, false);
            let ghost rv = row.deep_view();
            rows.push(row);
            assert(rows.deep_view() =~= before.push(rv));
        }
        i += 1;
    }
    assert(es@.take(es.len() as int) =~= es@);
    Ok(rows)
}

/// The mathematical form of an optional lookup result or its error.
pub open spec fn lookup_result(
    r: Result<Option<(String, PropValue, bool)>, IntellisenseError>,
) -> Result<Option<(Seq<char>, ValueView, bool)>, ErrorView> {
    match r {
        Ok(Some(t)) => Ok(Some((t.0@, t.1@, t.2))),
        Ok(None) => Ok(None),
        Err(e) => Err(e@),
    }
}

/// Looking up one UI property of a UI control blueprint by name.
pub fn uicb_lookup_of(types: &Vec<(u8, String)>, es: &Vec<UicbEntry>, name: &String) -> (r: Result<
    Option<(String, PropValue, bool)>,
    IntellisenseError,
>)
    ensures
        lookup_result(r) == uicb_lookup(types@, es@, name@),
{
    assert(es@.skip(0) =~= es@);
    let mut i: usize = 0;
    while i < es.len()
        invariant
            i <= es.len(),
            uicb_lookup(types@, es@, name@) == uicb_lookup(types@, es@.skip(i as int), name@),
        decreases es.len() - i,
    {
        assert(es@.skip(i as int).drop_first() =~= es@.skip(i + 1));
        assert(es@.skip(i as int)[0] == es@[i as int]);
        let e = &es[i];
        if e.kind == 0 {
            match uicb_type_name_of(types, e.type_code) {
                None => {
                    return Err(IntellisenseError::UnknownUicbPropertyType);
                },
                Some(t) => {
                    if e.name == *name {
                        match uicb_default_of(&t) {
                            None => {
                                return Err(IntellisenseError::UnknownUicbValueType);
                            },
                            Some(v) => {
                                return Ok(Some((t, v, false)));
                            },
                        }
                    }
                },
            }
        }
        i += 1;
    }
    Ok(None)
}

/// The names of the pin entries of a UI control blueprint.
pub fn uicb_pins_of(es: &Vec<UicbEntry>) -> (r: Vec<String>)
    ensures
        r.deep_view() == uicb_pins(es@),
{
    let mut names: Vec<String> = Vec::new();
    assert(es@.take(0) =~= Seq::<UicbEntry>::empty());
    assert(names.deep_view() =~= Seq::<Seq<char>>::empty());
    let mut i: usize = 0;
    while i < es.len()
        invariant
            i <= es.len(),
            names.deep_view() == uicb_pins(es@.take(i as int)),
        decreases es.len() - i,
    {
        assert(es@.take(i + 1).drop_last() =~= es@.take(i as int));
        if es[i].kind == 1 {
            let ghost before = names.deep_view();
            names.push(es[i].name.clone());
            assert(names.deep_view() =~= before.push(es[i as int].name@));
        }
        i += 1;
    }
    assert(es@.take(es.len() as int) =~= es@);
    names
}

} // verus!
