//! Converting the property table of a class (CPPT) into the names, types
//! and default values that the editor shows.

use crate::model::{ErrorView, IntellisenseError, PropValue, ValueView};
use crate::text::{dec_digits, hex_digits, push_char, push_decimal, push_hex, owned, same_text};
use vstd::prelude::*;

verus! {

/// How a class names one of its properties.
#[derive(Debug)]
pub enum PropertyId {
    Int(u64),
    Text(String),
}

/// The eleven fields of a GUID as class data stores them.
#[derive(Debug)]
pub struct GuidParts {
    pub a: u32,
    pub b: u16,
    pub c: u16,
    pub d: u8,
    pub e: u8,
    pub f: u8,
    pub g: u8,
    pub h: u8,
    pub i: u8,
    pub j: u8,
    pub k: u8,
}

/// One channel of a colour as read from class data: absent, present but
/// not a number, or present and scaled to a byte.
#[derive(Debug)]
pub enum Channel {
    Missing,
    NotNumber,
    Byte(u8),
}

/// The channels of a colour object, in the order `r`, `g`, `b`, `a`.
#[derive(Debug)]
pub struct ColourReading {
    pub r: Channel,
    pub g: Channel,
    pub b: Channel,
    pub a: Channel,
}

/// What property conversion reads of a raw class value.
///
/// `json` is the value itself as JSON text; the other fields are the
/// readings that the conversion may need, depending on the property type:
/// the `m_IDLow` field as an unsigned integer, the value read as a GUID,
/// the value read as a colour object, and the transform that a
/// `SMatrix43` value decomposes into (as JSON text).
#[derive(Debug)]
pub struct RawValue {
    pub json: String,
    pub id_low: Option<u64>,
    pub guid: Option<GuidParts>,
    pub colour: Option<ColourReading>,
    pub transform: Option<String>,
}

/// One property of a class as the class data lists it.
#[derive(Debug)]
pub struct CpptInput {
    pub id: PropertyId,
    pub property_type: String,
    pub value: RawValue,
}

/// A resource that a resource references, with its reference flag.
#[derive(Debug)]
pub struct HashRef {
    pub hash: String,
    pub flag: String,
}

/// A converted class property: name, type and default value.
pub type CpptProperty = (String, String, PropValue);

/// The mathematical form of a [`CpptProperty`].
pub type CpptView = (Seq<char>, Seq<char>, ValueView);

/// The name under which a property is listed.
pub open spec fn id_text(id: PropertyId) -> Seq<char> {
    match id {
        PropertyId::Int(x) => dec_digits(x as nat),
        PropertyId::Text(s) => s@,
    }
}

/// The type under which a property is shown: entity references become
/// template references.
pub open spec fn shown_type(t: Seq<char>) -> Seq<char> {
    if t == "ZEntityReference"@ {
        "SEntityTemplateReference"@
    } else if t == "TArray<ZEntityReference>"@ {
        "TArray<SEntityTemplateReference>"@
    } else {
        t
    }
}

/// The canonical text of a GUID: `8-4-4-4-12` lowercase hexadecimal digits.
pub open spec fn guid_text(g: GuidParts) -> Seq<char> {
    hex_digits(g.a as nat, 8) + seq!['-'] + hex_digits(g.b as nat, 4) + seq!['-']
        + hex_digits(g.c as nat, 4) + seq!['-'] + hex_digits(g.d as nat, 2) + hex_digits(
        g.e as nat,
        2,
    ) + seq!['-'] + hex_digits(g.f as nat, 2) + hex_digits(g.g as nat, 2) + hex_digits(
        g.h as nat,
        2,
    ) + hex_digits(g.i as nat, 2) + hex_digits(g.j as nat, 2) + hex_digits(g.k as nat, 2)
}

/// `#` followed by two lowercase hexadecimal digits per channel.
pub open spec fn colour_text(channels: Seq<u8>) -> Seq<char>
    decreases channels.len(),
{
    if channels.len() == 0 {
        seq!['#']
    } else {
        colour_text(channels.drop_last()) + hex_digits(channels.last() as nat, 2)
    }
}

/// A colour channel's byte, or why there is none.
pub open spec fn channel_byte(c: Channel, key: char) -> Result<u8, ErrorView> {
    match c {
        Channel::Missing => Err(ErrorView::ColourMissingKey(key)),
        Channel::NotNumber => Err(ErrorView::InvalidData),
        Channel::Byte(b) => Ok(b),
    }
}

/// The colour value of an `SColorRGB` (or, with `alpha`, `SColorRGBA`)
/// property: its channels are read in order and the first failure is
/// reported.
pub open spec fn colour_value(c: Option<ColourReading>, alpha: bool) -> Result<
    ValueView,
    ErrorView,
> {
    match c {
        None => Err(ErrorView::ColourNotObject { with_alpha: alpha }),
        Some(rd) => match channel_byte(rd.r, 'r') {
            Err(e) => Err(e),
            Ok(r) => match channel_byte(rd.g, 'g') {
                Err(e) => Err(e),
                Ok(g) => match channel_byte(rd.b, 'b') {
                    Err(e) => Err(e),
                    Ok(b) => if alpha {
                        match channel_byte(rd.a, 'a') {
                            Err(e) => Err(e),
                            Ok(a) => Ok(ValueView::Text(colour_text(seq![r, g, b, a]))),
                        }
                    } else {
                        Ok(ValueView::Text(colour_text(seq![r, g, b])))
                    },
                },
            },
        },
    }
}

/// The referenced-resource id that marks "no resource".
pub const NO_RESOURCE: u64 = 4294967295;

/// The default value shown for a class property of type `t`.
pub open spec fn converted_value(t: Seq<char>, v: RawValue, refs: Seq<HashRef>) -> Result<
    ValueView,
    ErrorView,
> {
    if t == "ZRuntimeResourceID"@ {
        match v.id_low {
            None => Err(ErrorView::InvalidData),
            Some(id) => if id != NO_RESOURCE {
                if id < refs.len() {
                    let r = refs[id as int];
                    if r.flag@ == "1F"@ {
                        Ok(ValueView::Text(r.hash@))
                    } else {
                        Ok(ValueView::ResourceRef { resource: r.hash@, flag: r.flag@ })
                    }
                } else {
                    Err(ErrorView::NoSuchReferencedResource)
                }
            } else {
                Ok(ValueView::Null)
            },
        }
    } else if t == "ZEntityReference"@ {
        Ok(ValueView::Null)
    } else if t == "TArray<ZEntityReference>"@ {
        Ok(ValueView::EmptyList)
    } else if t == "ZGuid"@ {
        match v.guid {
            None => Err(ErrorView::InvalidData),
            Some(g) => Ok(ValueView::Text(guid_text(g))),
        }
    } else if t == "SColorRGB"@ {
        colour_value(v.colour, false)
    } else if t == "SColorRGBA"@ {
        colour_value(v.colour, true)
    } else if t == "SMatrix43"@ {
        match v.transform {
            None => Err(ErrorView::InvalidData),
            Some(j) => Ok(ValueView::Json(j@)),
        }
    } else {
        Ok(ValueView::Json(v.json@))
    }
}

/// The first index at or after `from` whose entry is named `name`.
pub open spec fn cppt_index_from(s: Seq<CpptView>, name: Seq<char>, from: int) -> Option<int>
    decreases s.len() - from,
{
    if from < 0 || from >= s.len() {
        None
    } else if s[from].0 == name {
        Some(from)
    } else {
        cppt_index_from(s, name, from + 1)
    }
}

/// The index of the entry named `name`, if any.
pub open spec fn cppt_index(s: Seq<CpptView>, name: Seq<char>) -> Option<int> {
    cppt_index_from(s, name, 0)
}

/// `s` with `p` replacing the entry of the same name, or appended when
/// there is none: a map insertion.
pub open spec fn upsert(s: Seq<CpptView>, p: CpptView) -> Seq<CpptView> {
    match cppt_index(s, p.0) {
        Some(i) => s.update(i, p),
        None => s.push(p),
    }
}

/// The converted properties of a class: each property in turn is converted
/// and inserted by name, so a later property with the same name replaces
/// an earlier one; the first conversion that fails decides the error.
pub open spec fn converted_properties(props: Seq<CpptInput>, refs: Seq<HashRef>) -> Result<
    Seq<CpptView>,
    ErrorView,
>
    decreases props.len(),
{
    if props.len() == 0 {
        Ok(Seq::empty())
    } else {
        match converted_properties(props.drop_last(), refs) {
            Err(e) => Err(e),
            Ok(acc) => {
                let p = props.last();
                match converted_value(p.property_type@, p.value, refs) {
                    Err(e) => Err(e),
                    Ok(v) => Ok(upsert(acc, (id_text(p.id), shown_type(p.property_type@), v))),
                }
            },
        }
    }
}

/// No two entries share a name.
pub open spec fn distinct_names(s: Seq<CpptView>) -> bool {
    forall|i: int, j: int| 0 <= i < j < s.len() ==> s[i].0 != s[j].0
}

} // verus!

verus! {

/// The mathematical form of a value-or-error.
pub open spec fn value_result(r: Result<PropValue, IntellisenseError>) -> Result<
    ValueView,
    ErrorView,
> {
    match r {
        Ok(v) => Ok(v@),
        Err(e) => Err(e@),
    }
}

/// The mathematical form of a converted class table or its error.
pub open spec fn table_result(r: Result<Vec<CpptProperty>, IntellisenseError>) -> Result<
    Seq<CpptView>,
    ErrorView,
> {
    match r {
        Ok(v) => Ok(v.deep_view()),
        Err(e) => Err(e@),
    }
}

/// The name under which a property is listed: its number in decimal, or
/// its text.
pub fn property_name(id: &PropertyId) -> (r: String)
    ensures
        r@ == id_text(*id),
{
    match id {
        PropertyId::Int(x) => {
            let mut s = String::new();
            push_decimal(&mut s, *x);
            s
        },
        PropertyId::Text(s) => s.clone(),
    }
}

/// The type under which a class property is shown.
pub fn shown_type_of(t: &str) -> (r: String)
    ensures
        r@ == shown_type(t@),
{
    if same_text(t, "ZEntityReference") {
        owned("SEntityTemplateReference")
    } else if same_text(t, "TArray<ZEntityReference>") {
        owned("TArray<SEntityTemplateReference>")
    } else {
        owned(t)
    }
}

/// The canonical text of a GUID.
pub fn guid_string(g: &GuidParts) -> (r: String)
    ensures
        r@ == guid_text(*g),
{
    let mut s = String::new();
    push_hex(&mut s, g.a as u64, 8);
    push_char(&mut s, '-');
    push_hex(&mut s, g.b as u64, 4);
    push_char(&mut s, '-');
    push_hex(&mut s, g.c as u64, 4);
    push_char(&mut s, '-');
    push_hex(&mut s, g.d as u64, 2);
    push_hex(&mut s, g.e as u64, 2);
    push_char(&mut s, '-');
    push_hex(&mut s, g.f as u64, 2);
    push_hex(&mut s, g.g as u64, 2);
    push_hex(&mut s, g.h as u64, 2);
    push_hex(&mut s, g.i as u64, 2);
    push_hex(&mut s, g.j as u64, 2);
    push_hex(&mut s, g.k as u64, 2);
    assert(s@ =~= guid_text(*g));
    s
}

/// `#` followed by two lowercase hexadecimal digits per channel, as
/// `"#{:0>2x}{:0>2x}{:0>2x}"` prints three bytes.
pub fn colour_string(channels: &Vec<u8>) -> (r: String)
    ensures
        r@ == colour_text(channels@),
{
    let mut s = String::new();
    push_char(&mut s, '#');
    let mut i: usize = 0;
    while i < channels.len()
        invariant
            i <= channels.len(),
            s@ == colour_text(channels@.take(i as int)),
        decreases channels.len() - i,
    {
        assert(channels@.take(i + 1).drop_last() =~= channels@.take(i as int));
        push_hex(&mut s, channels[i] as u64, 2);
        i += 1;
    }
    assert(channels@.take(channels.len() as int) =~= channels@);
    s
}

fn channel_byte_of(c: &Channel, key: char) -> (r: Result<u8, IntellisenseError>)
    ensures
        match r {
            Ok(b) => channel_byte(*c, key) == Ok::<u8, ErrorView>(b),
            Err(e) => channel_byte(*c, key) == Err::<u8, ErrorView>(e@),
        },
{
    match c {
        Channel::Missing => Err(IntellisenseError::ColourMissingKey(key)),
        Channel::NotNumber => Err(IntellisenseError::InvalidData),
        Channel::Byte(b) => Ok(*b),
    }
}

/// The colour value of a colour property (with `alpha`, of an RGBA one).
pub fn colour_of(c: &Option<ColourReading>, alpha: bool) -> (r: Result<
    PropValue,
    IntellisenseError,
>)
    ensures
        value_result(r) == colour_value(*c, alpha),
{
    match c {
        None => Err(IntellisenseError::ColourNotObject { with_alpha: alpha }),
        Some(rd) => {
            let r = channel_byte_of(&rd.r, 'r')?;
            let g = channel_byte_of(&rd.g, 'g')?;
            let b = channel_byte_of(&rd.b, 'b')?;
            let mut bytes: Vec<u8> = Vec::new();
            bytes.push(r);
            bytes.push(g);
            bytes.push(b);
            if alpha {
                let a = channel_byte_of(&rd.a, 'a')?;
                bytes.push(a);
                assert(bytes@ =~= seq![r, g, b, a]);
            } else {
                assert(bytes@ =~= seq![r, g, b]);
            }
            Ok(PropValue::Text(colour_string(&bytes)))
        },
    }
}

/// The default value shown for a class property of type `t`.
pub fn convert_value(t: &str, v: &RawValue, refs: &Vec<HashRef>) -> (r: Result<
    PropValue,
    IntellisenseError,
>)
    ensures
        value_result(r) == converted_value(t@, *v, refs@),
{
    if same_text(t, "ZRuntimeResourceID") {
        match v.id_low {
            None => Err(IntellisenseError::InvalidData),
            Some(id) => {
                if id != NO_RESOURCE {
                    if id < refs.len() as u64 {
                        let reference = &refs[id as usize];
                        if same_text(reference.flag.as_str(), "1F") {
                            Ok(PropValue::Text(reference.hash.clone()))
                        } else {
                            Ok(
                                PropValue::ResourceRef {
                                    resource: reference.hash.clone(),
                                    flag: reference.flag.clone(),
                                },
                            )
                        }
                    } else {
                        Err(IntellisenseError::NoSuchReferencedResource)
                    }
                } else {
                    Ok(PropValue::Null)
                }
            },
        }
    } else if same_text(t, "ZEntityReference") {
        Ok(PropValue::Null)
    } else if same_text(t, "TArray<ZEntityReference>") {
        Ok(PropValue::EmptyList)
    } else if same_text(t, "ZGuid") {
        match &v.guid {
            None => Err(IntellisenseError::InvalidData),
            Some(g) => Ok(PropValue::Text(guid_string(g))),
        }
    } else if same_text(t, "SColorRGB") {
        colour_of(&v.colour, false)
    } else if same_text(t, "SColorRGBA") {
        colour_of(&v.colour, true)
    } else if same_text(t, "SMatrix43") {
        match &v.transform {
            None => Err(IntellisenseError::InvalidData),
            Some(j) => Ok(PropValue::Json(j.clone())),
        }
    } else {
        Ok(PropValue::Json(v.json.clone()))
    }
}

} // verus!

verus! {

/// The index of the entry named `name` in a converted table.
pub fn find_property(table: &Vec<CpptProperty>, name: &String) -> (r: Option<usize>)
    ensures
        match r {
            Some(i) => cppt_index(table.deep_view(), name@) == Some(i as int) && i < table.len()
                && table.deep_view()[i as int].0 == name@,
            None => cppt_index(table.deep_view(), name@) == None::<int>,
        },
{
    let ghost s = table.deep_view();
    proof {
        lemma_cppt_index_from(s, name@, 0);
    }
    let mut i: usize = 0;
    while i < table.len()
        invariant
            i <= table.len(),
            s == table.deep_view(),
            cppt_index(s, name@) == cppt_index_from(s, name@, i as int),
        decreases table.len() - i,
    {
        if table[i].0 == *name {
            return Some(i);
        }
        i += 1;
    }
    None
}

/// Where `cppt_index` finds an entry, it is named `name` and no earlier
/// entry is.
pub proof fn lemma_cppt_index_from(s: Seq<CpptView>, name: Seq<char>, from: int)
    requires
        0 <= from,
    ensures
        match cppt_index_from(s, name, from) {
            Some(i) => from <= i < s.len() && s[i].0 == name && forall|j: int|
                from <= j < i ==> s[j].0 != name,
            None => forall|j: int| from <= j < s.len() ==> s[j].0 != name,
        },
    decreases s.len() - from,
{
    if from < s.len() && s[from].0 != name {
        lemma_cppt_index_from(s, name, from + 1);
    }
}

/// Inserting by name keeps the names distinct, and afterwards the table
/// holds the inserted entry under its name.
pub proof fn lemma_upsert(s: Seq<CpptView>, p: CpptView)
    requires
        distinct_names(s),
    ensures
        distinct_names(upsert(s, p)),
        cppt_index(upsert(s, p), p.0) is Some,
        upsert(s, p)[cppt_index(upsert(s, p), p.0)->0] == p,
{
    lemma_cppt_index_from(s, p.0, 0);
    let t = upsert(s, p);
    lemma_cppt_index_from(t, p.0, 0);
    match cppt_index(s, p.0) {
        Some(i) => {
            assert(t[i].0 == p.0);
            match cppt_index(t, p.0) {
                Some(k) => {
                    if k < i {
                        assert(t[k] == s[k]);
                    }
                    assert(k == i);
                },
                None => {
                    assert(false);
                },
            }
            assert forall|a: int, b: int| 0 <= a < b < t.len() implies t[a].0 != t[b].0 by {
                assert(t[a].0 == s[a].0);
                assert(t[b].0 == s[b].0);
            }
        },
        None => {
            assert(t[s.len() as int] == p);
            match cppt_index(t, p.0) {
                Some(k) => {
                    if k < s.len() {
                        assert(t[k] == s[k]);
                    }
                    assert(k == s.len());
                },
                None => {
                    assert(false);
                },
            }
            assert forall|a: int, b: int| 0 <= a < b < t.len() implies t[a].0 != t[b].0 by {
                if b == s.len() {
                    assert(t[a] == s[a]);
                } else {
                    assert(t[a] == s[a]);
                    assert(t[b] == s[b]);
                }
            }
        },
    }
}

/// Once converting a prefix of the properties fails, converting the whole
/// list fails with the same error.
pub proof fn lemma_conversion_error_persists(props: Seq<CpptInput>, refs: Seq<HashRef>, k: int)
    requires
        0 <= k <= props.len(),
        converted_properties(props.take(k), refs) is Err,
    ensures
        converted_properties(props, refs) == converted_properties(props.take(k), refs),
    decreases props.len() - k,
{
    if k < props.len() {
        assert(props.take(k + 1).drop_last() =~= props.take(k));
        lemma_conversion_error_persists(props, refs, k + 1);
    } else {
        assert(props.take(k) =~= props);
    }
}

fn upsert_property(table: &mut Vec<CpptProperty>, p: CpptProperty)
    requires
        distinct_names(old(table).deep_view()),
    ensures
        final(table).deep_view() == upsert(old(table).deep_view(), p.deep_view()),
        distinct_names(final(table).deep_view()),
{
    let ghost before = table.deep_view();
    let ghost pv = p.deep_view();
    proof {
        lemma_upsert(before, pv);
    }
    match find_property(table, &p.0) {
        Some(i) => {
            table.set(i, p);
            assert(table.deep_view() =~= before.update(i as int, pv));
        },
        None => {
            table.push(p);
            assert(table.deep_view() =~= before.push(pv));
        },
    }
}

/// The converted property table of a class, from its listed properties and
/// the resources that its data references.
///
/// Each property is listed under its name (a numbered property under its
/// number in decimal) with its shown type and default value; a later
/// property of the same name replaces an earlier one. The first property
/// whose value cannot be converted decides the error.
pub fn convert_cppt_properties(props: &Vec<CpptInput>, refs: &Vec<HashRef>) -> (r: Result<
    Vec<CpptProperty>,
    IntellisenseError,
>)
    ensures
        table_result(r) == converted_properties(props@, refs@),
        r matches Ok(t) ==> distinct_names(t.deep_view()),
{
    let mut table: Vec<CpptProperty> = Vec::new();
    assert(props@.take(0) =~= Seq::<CpptInput>::empty());
    assert(table.deep_view() =~= Seq::<CpptView>::empty());
    let mut i: usize = 0;
    while i < props.len()
        invariant
            i <= props.len(),
            converted_properties(props@.take(i as int), refs@) == Ok::<
                Seq<CpptView>,
                ErrorView,
            >(table.deep_view()),
            distinct_names(table.deep_view()),
        decreases props.len() - i,
    {
        assert(props@.take(i + 1).drop_last() =~= props@.take(i as int));
        let p = &props[i];
        let v = match convert_value(p.property_type.as_str(), &p.value, refs) {
            Ok(v) => v,
            Err(e) => {
                proof {
                    lemma_conversion_error_persists(props@, refs@, i + 1);
                }
                return Err(e);
            },
        };
        let name = property_name(&p.id);
        let shown = shown_type_of(p.property_type.as_str());
        upsert_property(&mut table, (name, shown, v));
        i += 1;
    }
    assert(props@.take(props.len() as int) =~= props@);
    Ok(table)
}

} // verus!
