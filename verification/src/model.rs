//! The values that property and pin resolution reads and produces.

use vstd::prelude::*;

verus! {

/// A property value as the editor shows it.
///
/// `Json` holds a JSON document as text, kept verbatim: values that come
/// from entity or class data and are handed through unchanged.
#[derive(Debug)]
pub enum PropValue {
    Null,
    Bool(bool),
    Int(i64),
    Text(String),
    EmptyList,
    ResourceRef { resource: String, flag: String },
    Json(String),
}

/// The mathematical form of a [`PropValue`].
pub enum ValueView {
    Null,
    Bool(bool),
    Int(int),
    Text(Seq<char>),
    EmptyList,
    ResourceRef { resource: Seq<char>, flag: Seq<char> },
    Json(Seq<char>),
}

impl View for PropValue {
    type V = ValueView;

    open spec fn view(&self) -> ValueView {
        match self {
            PropValue::Null => ValueView::Null,
            PropValue::Bool(b) => ValueView::Bool(*b),
            PropValue::Int(i) => ValueView::Int(*i as int),
            PropValue::Text(s) => ValueView::Text(s@),
            PropValue::EmptyList => ValueView::EmptyList,
            PropValue::ResourceRef { resource, flag } => ValueView::ResourceRef {
                resource: resource@,
                flag: flag@,
            },
            PropValue::Json(s) => ValueView::Json(s@),
        }
    }
}

impl DeepView for PropValue {
    type V = ValueView;

    open spec fn deep_view(&self) -> ValueView {
        self@
    }
}

impl PropValue {
    /// A copy of this value.
    pub fn duplicate(&self) -> (r: PropValue)
        ensures
            r == *self,
    {
        match self {
            PropValue::Null => PropValue::Null,
            PropValue::Bool(b) => PropValue::Bool(*b),
            PropValue::Int(i) => PropValue::Int(*i),
            PropValue::Text(s) => PropValue::Text(s.clone()),
            PropValue::EmptyList => PropValue::EmptyList,
            PropValue::ResourceRef { resource, flag } => PropValue::ResourceRef {
                resource: resource.clone(),
                flag: flag.clone(),
            },
            PropValue::Json(s) => PropValue::Json(s.clone()),
        }
    }
}

/// One property as resolution reports it: name, type, default value and
/// whether it is set after initialisation.
pub type PropertyRow = (String, String, PropValue, bool);

/// The mathematical form of a [`PropertyRow`].
pub type RowView = (Seq<char>, Seq<char>, ValueView, bool);

/// A copy of a row.
pub fn copy_row(row: &PropertyRow) -> (r: PropertyRow)
    ensures
        r == *row,
{
    (row.0.clone(), row.1.clone(), row.2.duplicate(), row.3)
}

/// Appends the rows of `more` to `rows`.
pub fn append_rows(rows: &mut Vec<PropertyRow>, more: Vec<PropertyRow>)
    ensures
        final(rows).deep_view() == old(rows).deep_view() + more.deep_view(),
{
    let ghost before = rows.deep_view();
    let mut more = more;
    let ghost m = more.deep_view();
    rows.append(&mut more);
    assert(rows.deep_view() =~= before + m);
}

/// Appends the strings of `more` to `names`.
pub fn append_names(names: &mut Vec<String>, more: Vec<String>)
    ensures
        final(names).deep_view() == old(names).deep_view() + more.deep_view(),
{
    let ghost before = names.deep_view();
    let mut more = more;
    let ghost m = more.deep_view();
    names.append(&mut more);
    assert(names.deep_view() =~= before + m);
}

/// A copy of a list of strings.
pub fn copy_names(names: &Vec<String>) -> (r: Vec<String>)
    ensures
        r.deep_view() == names.deep_view(),
{
    let mut r: Vec<String> = Vec::new();
    let mut i: usize = 0;
    while i < names.len()
        invariant
            i <= names.len(),
            r.deep_view() == names.deep_view().take(i as int),
        decreases names.len() - i,
    {
        let ghost before = r.deep_view();
        r.push(names[i].clone());
        assert(r.deep_view() =~= before.push(names[i as int]@));
        assert(names.deep_view().take(i + 1) =~= names.deep_view().take(i as int).push(
            names[i as int]@,
        ));
        i += 1;
    }
    assert(names.deep_view().take(names.len() as int) =~= names.deep_view());
    r
}

} // verus!

verus! {

/// What was being resolved when an error arose.
#[derive(Debug)]
pub enum ErrorContext {
    /// Listing the properties of a sub-entity of the entity with a factory
    /// hash.
    Properties { sub_entity: String, factory_hash: String },
    /// Looking up one property of a sub-entity.
    Property { property: String, sub_entity: String, factory_hash: String },
    /// Gathering the pins of a sub-entity.
    Pins { sub_entity: String, factory_hash: String },
    /// Converting the property table of a class.
    Cppt(String),
}

/// The mathematical form of an [`ErrorContext`].
pub enum ContextView {
    Properties { sub_entity: Seq<char>, factory_hash: Seq<char> },
    Property { property: Seq<char>, sub_entity: Seq<char>, factory_hash: Seq<char> },
    Pins { sub_entity: Seq<char>, factory_hash: Seq<char> },
    Cppt(Seq<char>),
}

impl View for ErrorContext {
    type V = ContextView;

    open spec fn view(&self) -> ContextView {
        match self {
            ErrorContext::Properties { sub_entity, factory_hash } => ContextView::Properties {
                sub_entity: sub_entity@,
                factory_hash: factory_hash@,
            },
            ErrorContext::Property { property, sub_entity, factory_hash } => ContextView::Property {
                property: property@,
                sub_entity: sub_entity@,
                factory_hash: factory_hash@,
            },
            ErrorContext::Pins { sub_entity, factory_hash } => ContextView::Pins {
                sub_entity: sub_entity@,
                factory_hash: factory_hash@,
            },
            ErrorContext::Cppt(h) => ContextView::Cppt(h@),
        }
    }
}

/// The line that names a context.
pub open spec fn context_text(c: ContextView) -> Seq<char> {
    match c {
        ContextView::Properties { sub_entity, factory_hash } => "Couldn't get properties for sub-entity "@
            + sub_entity + " in "@ + factory_hash,
        ContextView::Property { property, sub_entity, factory_hash } => "Couldn't get property "@
            + property + " of sub-entity "@ + sub_entity + " in "@ + factory_hash,
        ContextView::Pins { sub_entity, factory_hash } => "Couldn't get pins for sub-entity "@
            + sub_entity + " in "@ + factory_hash,
        ContextView::Cppt(h) => "Couldn't get properties for CPPT "@ + h,
    }
}

impl ErrorContext {
    /// A copy of this context.
    pub fn duplicate(&self) -> (r: ErrorContext)
        ensures
            r@ == self@,
    {
        match self {
            ErrorContext::Properties { sub_entity, factory_hash } => ErrorContext::Properties {
                sub_entity: sub_entity.clone(),
                factory_hash: factory_hash.clone(),
            },
            ErrorContext::Property { property, sub_entity, factory_hash } => ErrorContext::Property {
                property: property.clone(),
                sub_entity: sub_entity.clone(),
                factory_hash: factory_hash.clone(),
            },
            ErrorContext::Pins { sub_entity, factory_hash } => ErrorContext::Pins {
                sub_entity: sub_entity.clone(),
                factory_hash: factory_hash.clone(),
            },
            ErrorContext::Cppt(h) => ErrorContext::Cppt(h.clone()),
        }
    }

    /// The line that names this context.
    pub fn text(&self) -> (r: String)
        ensures
            r@ == context_text(self@),
    {
        match self {
            ErrorContext::Properties { sub_entity, factory_hash } => {
                let mut s = crate::text::owned("Couldn't get properties for sub-entity ");
                crate::text::push_str(&mut s, sub_entity.as_str());
                crate::text::push_str(&mut s, " in ");
                crate::text::push_str(&mut s, factory_hash.as_str());
                s
            },
            ErrorContext::Property { property, sub_entity, factory_hash } => {
                let mut s = crate::text::owned("Couldn't get property ");
                crate::text::push_str(&mut s, property.as_str());
                crate::text::push_str(&mut s, " of sub-entity ");
                crate::text::push_str(&mut s, sub_entity.as_str());
                crate::text::push_str(&mut s, " in ");
                crate::text::push_str(&mut s, factory_hash.as_str());
                s
            },
            ErrorContext::Pins { sub_entity, factory_hash } => {
                let mut s = crate::text::owned("Couldn't get pins for sub-entity ");
                crate::text::push_str(&mut s, sub_entity.as_str());
                crate::text::push_str(&mut s, " in ");
                crate::text::push_str(&mut s, factory_hash.as_str());
                s
            },
            ErrorContext::Cppt(h) => {
                let mut s = crate::text::owned("Couldn't get properties for CPPT ");
                crate::text::push_str(&mut s, h.as_str());
                s
            },
        }
    }
}

/// Why resolving properties or pins failed.
#[derive(Debug)]
pub enum IntellisenseError {
    /// The entity has no sub-entity with the requested id.
    NoSuchSubEntity,
    /// A class has no entry in the table of pins.
    NoSuchCpptInPins,
    /// A UI blueprint property uses a type code with no known type name.
    UnknownUicbPropertyType,
    /// A UI blueprint property has a type with no known default value.
    UnknownUicbValueType,
    /// Class data did not have the expected shape.
    InvalidData,
    /// A resource reference points past the list of referenced resources.
    NoSuchReferencedResource,
    /// A colour value was not an object (`with_alpha` tells RGBA from RGB).
    ColourNotObject { with_alpha: bool },
    /// A colour value lacked the named channel.
    ColourMissingKey(char),
    /// Resolution went deeper than the nesting limit.
    TooDeep,
    /// Loading a resource failed, with the loader's message.
    Load(String),
    /// An error under the context in which it arose.
    Within { context: ErrorContext, cause: Box<IntellisenseError> },
}

/// The mathematical form of an [`IntellisenseError`].
pub enum ErrorView {
    NoSuchSubEntity,
    NoSuchCpptInPins,
    UnknownUicbPropertyType,
    UnknownUicbValueType,
    InvalidData,
    NoSuchReferencedResource,
    ColourNotObject { with_alpha: bool },
    ColourMissingKey(char),
    TooDeep,
    Load(Seq<char>),
    Within { context: ContextView, cause: Box<ErrorView> },
}

/// The mathematical form of an error, by its structure.
pub open spec fn error_view(e: IntellisenseError) -> ErrorView
    decreases e,
{
    match e {
        IntellisenseError::NoSuchSubEntity => ErrorView::NoSuchSubEntity,
        IntellisenseError::NoSuchCpptInPins => ErrorView::NoSuchCpptInPins,
        IntellisenseError::UnknownUicbPropertyType => ErrorView::UnknownUicbPropertyType,
        IntellisenseError::UnknownUicbValueType => ErrorView::UnknownUicbValueType,
        IntellisenseError::InvalidData => ErrorView::InvalidData,
        IntellisenseError::NoSuchReferencedResource => ErrorView::NoSuchReferencedResource,
        IntellisenseError::ColourNotObject { with_alpha } => ErrorView::ColourNotObject { with_alpha },
        IntellisenseError::ColourMissingKey(c) => ErrorView::ColourMissingKey(c),
        IntellisenseError::TooDeep => ErrorView::TooDeep,
        IntellisenseError::Load(m) => ErrorView::Load(m@),
        IntellisenseError::Within { context, cause } => ErrorView::Within {
            context: context@,
            cause: Box::new(error_view(*cause)),
        },
    }
}

impl View for IntellisenseError {
    type V = ErrorView;

    open spec fn view(&self) -> ErrorView {
        error_view(*self)
    }
}

impl IntellisenseError {
    /// A copy of this error.
    pub fn duplicate(&self) -> (r: IntellisenseError)
        ensures
            r@ == self@,
        decreases self,
    {
        match self {
            IntellisenseError::NoSuchSubEntity => IntellisenseError::NoSuchSubEntity,
            IntellisenseError::NoSuchCpptInPins => IntellisenseError::NoSuchCpptInPins,
            IntellisenseError::UnknownUicbPropertyType => IntellisenseError::UnknownUicbPropertyType,
            IntellisenseError::UnknownUicbValueType => IntellisenseError::UnknownUicbValueType,
            IntellisenseError::InvalidData => IntellisenseError::InvalidData,
            IntellisenseError::NoSuchReferencedResource => IntellisenseError::NoSuchReferencedResource,
            IntellisenseError::ColourNotObject { with_alpha } => IntellisenseError::ColourNotObject {
                with_alpha: *with_alpha,
            },
            IntellisenseError::ColourMissingKey(c) => IntellisenseError::ColourMissingKey(*c),
            IntellisenseError::TooDeep => IntellisenseError::TooDeep,
            IntellisenseError::Load(m) => IntellisenseError::Load(m.clone()),
            IntellisenseError::Within { context, cause } => IntellisenseError::Within {
                context: context.duplicate(),
                cause: Box::new(cause.duplicate()),
            },
        }
    }

    /// The message the editor reports for this error.
    pub fn message(&self) -> (r: String)
        ensures
            r@ == error_message(self@),
    {
        match self {
            IntellisenseError::NoSuchSubEntity => crate::text::owned("No such sub-entity"),
            IntellisenseError::NoSuchCpptInPins => crate::text::owned("No such CPPT in pins"),
            IntellisenseError::UnknownUicbPropertyType => crate::text::owned(
                "Unknown UICB property type",
            ),
            IntellisenseError::UnknownUicbValueType => crate::text::owned(
                "UICB property types has unknown type",
            ),
            IntellisenseError::InvalidData => crate::text::owned("Invalid data"),
            IntellisenseError::NoSuchReferencedResource => crate::text::owned(
                "No such referenced resource",
            ),
            IntellisenseError::ColourNotObject { with_alpha } => {
                if *with_alpha {
                    crate::text::owned("SColorRGBA was not an object")
                } else {
                    crate::text::owned("SColorRGB was not an object")
                }
            },
            IntellisenseError::ColourMissingKey(c) => {
                let mut s = crate::text::owned("Colour did not have required key ");
                crate::text::push_char(&mut s, *c);
                s
            },
            IntellisenseError::TooDeep => crate::text::owned("Entity nesting is too deep"),
            IntellisenseError::Load(m) => m.clone(),
            IntellisenseError::Within { context, .. } => context.text(),
        }
    }

    /// The messages of this error and of the errors under it, outermost
    /// first: the context lines, then the error that caused them.
    pub fn chain(&self) -> (r: Vec<String>)
        ensures
            r.deep_view() == error_chain(self@),
        decreases self,
    {
        match self {
            IntellisenseError::Within { context, cause } => {
                let mut out: Vec<String> = Vec::new();
                out.push(context.text());
                let rest = cause.chain();
                append_names(&mut out, rest);
                out
            },
            _ => {
                let mut out: Vec<String> = Vec::new();
                out.push(self.message());
                assert(out.deep_view() =~= seq![error_message(self@)]);
                out
            },
        }
    }
}

/// The messages of an error and of the errors under it, outermost first.
pub open spec fn error_chain(e: ErrorView) -> Seq<Seq<char>>
    decreases e,
{
    match e {
        ErrorView::Within { context, cause } => seq![context_text(context)] + error_chain(*cause),
        _ => seq![error_message(e)],
    }
}

/// The message reported for an error.
pub open spec fn error_message(e: ErrorView) -> Seq<char> {
    match e {
        ErrorView::NoSuchSubEntity => "No such sub-entity"@,
        ErrorView::NoSuchCpptInPins => "No such CPPT in pins"@,
        ErrorView::UnknownUicbPropertyType => "Unknown UICB property type"@,
        ErrorView::UnknownUicbValueType => "UICB property types has unknown type"@,
        ErrorView::InvalidData => "Invalid data"@,
        ErrorView::NoSuchReferencedResource => "No such referenced resource"@,
        ErrorView::ColourNotObject { with_alpha } => if with_alpha {
            "SColorRGBA was not an object"@
        } else {
            "SColorRGB was not an object"@
        },
        ErrorView::ColourMissingKey(c) => "Colour did not have required key "@.push(c),
        ErrorView::TooDeep => "Entity nesting is too deep"@,
        ErrorView::Load(m) => m,
        ErrorView::Within { context, .. } => context_text(context),
    }
}

} // verus!
