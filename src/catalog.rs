use vstd::prelude::*;

verus! {

/// A (start, end) position pair into the notation text a schema was written in.
#[derive(Clone, Copy, Debug, PartialEq, Eq, Structural)]
pub struct Span {
    pub start: usize,
    pub end: usize,
}

/// The kind of value a schema describes.
///
/// `Unset` is the state of a fresh schema whose type has not been declared yet;
/// it is distinct from every real kind.
#[derive(Clone, Copy, Debug, PartialEq, Eq, Structural)]
pub enum JsonSchemaTypes {
    Object,
    String,
    Array,
    Number,
    Unset,
}

pub open spec fn type_text(t: JsonSchemaTypes) -> Seq<char> {
    match t {
        JsonSchemaTypes::Object => "object"@,
        JsonSchemaTypes::String => "string"@,
        JsonSchemaTypes::Array => "array"@,
        JsonSchemaTypes::Number => "number"@,
        JsonSchemaTypes::Unset => "null"@,
    }
}

impl Default for JsonSchemaTypes {
    fn default() -> (r: JsonSchemaTypes)
        ensures
            r == JsonSchemaTypes::Unset,
    {
        JsonSchemaTypes::Unset
    }
}

impl JsonSchemaTypes {
    /// True only for the undeclared state.
    pub fn is_none(&self) -> (r: bool)
        ensures
            r == (*self == JsonSchemaTypes::Unset),
    {
        matches!(self, JsonSchemaTypes::Unset)
    }

    /// The canonical spelling of the kind in a schema document.
    pub fn as_str(&self) -> (r: &'static str)
        ensures
            r@ == type_text(*self),
    {
        match self {
            JsonSchemaTypes::Object => "object",
            JsonSchemaTypes::String => "string",
            JsonSchemaTypes::Array => "array",
            JsonSchemaTypes::Number => "number",
            JsonSchemaTypes::Unset => "null",
        }
    }
}

/// The string formats a `format` keyword can name.
#[derive(Clone, Copy, Debug, PartialEq, Eq, Structural)]
pub enum Formats {
    Date,
    Time,
    DateTime,
    Email,
    Hostname,
    Ipv4,
    Ipv6,
    Uri,
}

pub open spec fn format_text(f: Formats) -> Seq<char> {
    match f {
        Formats::Date => "date"@,
        Formats::Time => "time"@,
        Formats::DateTime => "date-time"@,
        Formats::Email => "email"@,
        Formats::Hostname => "hostname"@,
        Formats::Ipv4 => "ipv4"@,
        Formats::Ipv6 => "ipv6"@,
        Formats::Uri => "uri"@,
    }
}

impl Formats {
    /// The canonical spelling of the format in a schema document.
    pub fn as_str(&self) -> (r: &'static str)
        ensures
            r@ == format_text(*self),
    {
        match self {
            Formats::Date => "date",
            Formats::Time => "time",
            Formats::DateTime => "date-time",
            Formats::Email => "email",
            Formats::Hostname => "hostname",
            Formats::Ipv4 => "ipv4",
            Formats::Ipv6 => "ipv6",
            Formats::Uri => "uri",
        }
    }
}

/// Every keyword a schema block may use, plus `Struct`, the marker for a
/// value that is itself a nested schema block.
#[derive(Clone, Copy, Debug, PartialEq, Eq, Structural)]
pub enum JsonSchemaKeywords {
    Type,
    Title,
    Required,
    Description,
    Items,
    Properties,
    Default,
    Examples,
    Enum,
    Const,
    MinLength,
    MaxLenght,
    Pattern,
    Format,
    Minimum,
    Maximum,
    MinItems,
    MaxItems,
    UniqueItems,
    Contains,
    Struct,
}

/// Keywords legal on a schema of any kind, declared or not.
pub open spec fn is_generic(k: JsonSchemaKeywords) -> bool {
    match k {
        JsonSchemaKeywords::Type
        | JsonSchemaKeywords::Title
        | JsonSchemaKeywords::Description
        | JsonSchemaKeywords::Default
        | JsonSchemaKeywords::Examples
        | JsonSchemaKeywords::Enum
        | JsonSchemaKeywords::Const => true,
        _ => false,
    }
}

/// The keywords that only a schema of kind `t` may use.
pub open spec fn is_specific(k: JsonSchemaKeywords, t: JsonSchemaTypes) -> bool {
    match t {
        JsonSchemaTypes::Object => k == JsonSchemaKeywords::Properties || k
            == JsonSchemaKeywords::Required,
        JsonSchemaTypes::String => k == JsonSchemaKeywords::MinLength || k
            == JsonSchemaKeywords::MaxLenght || k == JsonSchemaKeywords::Pattern || k
            == JsonSchemaKeywords::Format,
        JsonSchemaTypes::Number => k == JsonSchemaKeywords::Minimum || k
            == JsonSchemaKeywords::Maximum,
        JsonSchemaTypes::Array => k == JsonSchemaKeywords::Items || k == JsonSchemaKeywords::MinItems
            || k == JsonSchemaKeywords::MaxItems || k == JsonSchemaKeywords::UniqueItems || k
            == JsonSchemaKeywords::Contains,
        JsonSchemaTypes::Unset => false,
    }
}

pub open spec fn legal(k: JsonSchemaKeywords, t: JsonSchemaTypes) -> bool {
    is_generic(k) || is_specific(k, t)
}

/// The key under which a keyword's value appears in a schema document
/// (empty for the nested-block marker, which is no key).
pub open spec fn keyword_text(k: JsonSchemaKeywords) -> Seq<char> {
    match k {
        JsonSchemaKeywords::Type => "type"@,
        JsonSchemaKeywords::Title => "title"@,
        JsonSchemaKeywords::Required => "required"@,
        JsonSchemaKeywords::Description => "description"@,
        JsonSchemaKeywords::Items => "items"@,
        JsonSchemaKeywords::Properties => "properties"@,
        JsonSchemaKeywords::Default => "default"@,
        JsonSchemaKeywords::Examples => "examples"@,
        JsonSchemaKeywords::Enum => "enum"@,
        JsonSchemaKeywords::Const => "const"@,
        JsonSchemaKeywords::MinLength => "minLength"@,
        JsonSchemaKeywords::MaxLenght => "maxLength"@,
        JsonSchemaKeywords::Pattern => "pattern"@,
        JsonSchemaKeywords::Format => "format"@,
        JsonSchemaKeywords::Minimum => "minimum"@,
        JsonSchemaKeywords::Maximum => "maximum"@,
        JsonSchemaKeywords::MinItems => "minItems"@,
        JsonSchemaKeywords::MaxItems => "maxItems"@,
        JsonSchemaKeywords::UniqueItems => "uniqueItems"@,
        JsonSchemaKeywords::Contains => "contains"@,
        JsonSchemaKeywords::Struct => ""@,
    }
}

impl JsonSchemaKeywords {
    /// Whether this keyword may be used on a schema of kind `t`.
    pub fn is_legal_for(&self, t: JsonSchemaTypes) -> (r: bool)
        ensures
            r == legal(*self, t),
    {
        match self {
            JsonSchemaKeywords::Type
            | JsonSchemaKeywords::Title
            | JsonSchemaKeywords::Description
            | JsonSchemaKeywords::Default
            | JsonSchemaKeywords::Examples
            | JsonSchemaKeywords::Enum
            | JsonSchemaKeywords::Const => true,
            JsonSchemaKeywords::Properties | JsonSchemaKeywords::Required => matches!(
                t,
                JsonSchemaTypes::Object
            ),
            JsonSchemaKeywords::MinLength
            | JsonSchemaKeywords::MaxLenght
            | JsonSchemaKeywords::Pattern
            | JsonSchemaKeywords::Format => matches!(t, JsonSchemaTypes::String),
            JsonSchemaKeywords::Minimum | JsonSchemaKeywords::Maximum => matches!(
                t,
                JsonSchemaTypes::Number
            ),
            JsonSchemaKeywords::Items
            | JsonSchemaKeywords::MinItems
            | JsonSchemaKeywords::MaxItems
            | JsonSchemaKeywords::UniqueItems
            | JsonSchemaKeywords::Contains => matches!(t, JsonSchemaTypes::Array),
            JsonSchemaKeywords::Struct => false,
        }
    }

    /// The key under which this keyword appears in a schema document.
    pub fn as_str(&self) -> (r: &'static str)
        ensures
            r@ == keyword_text(*self),
    {
        match self {
            JsonSchemaKeywords::Type => "type",
            JsonSchemaKeywords::Title => "title",
            JsonSchemaKeywords::Required => "required",
            JsonSchemaKeywords::Description => "description",
            JsonSchemaKeywords::Items => "items",
            JsonSchemaKeywords::Properties => "properties",
            JsonSchemaKeywords::Default => "default",
            JsonSchemaKeywords::Examples => "examples",
            JsonSchemaKeywords::Enum => "enum",
            JsonSchemaKeywords::Const => "const",
            JsonSchemaKeywords::MinLength => "minLength",
            JsonSchemaKeywords::MaxLenght => "maxLength",
            JsonSchemaKeywords::Pattern => "pattern",
            JsonSchemaKeywords::Format => "format",
            JsonSchemaKeywords::Minimum => "minimum",
            JsonSchemaKeywords::Maximum => "maximum",
            JsonSchemaKeywords::MinItems => "minItems",
            JsonSchemaKeywords::MaxItems => "maxItems",
            JsonSchemaKeywords::UniqueItems => "uniqueItems",
            JsonSchemaKeywords::Contains => "contains",
            JsonSchemaKeywords::Struct => "",
        }
    }
}

} // verus!
