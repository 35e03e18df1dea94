use vstd::prelude::*;

use crate::catalog::{legal, Formats, JsonSchemaKeywords, JsonSchemaTypes, Span};
use crate::values::JsonSchemaValues;

verus! {

broadcast use vstd::std_specs::vec::axiom_vec_index_decreases;

/// The spans of a keyword and of its value, in that order.
pub type SpanPair = (Span, Span);

/// A named entry of `properties`.
#[derive(Debug)]
pub struct Property {
    pub name: String,
    pub schema: JsonSchema,
}

/// One schema, root or nested.
///
/// Each keyword has its value field and a span field with the positions of
/// the keyword and of its value; `depth` is 1 at the root and grows by one
/// with each level of nesting.
#[derive(Debug)]
pub struct JsonSchema {
    pub ty: JsonSchemaTypes,
    pub title: Option<String>,
    pub description: Option<String>,
    pub default: Option<JsonSchemaValues>,
    pub examples: Option<Vec<String>>,
    pub enum_values: Option<Vec<JsonSchemaValues>>,
    pub const_value: Option<JsonSchemaValues>,
    pub properties: Option<Vec<Property>>,
    pub required: Option<Vec<String>>,
    pub min_length: Option<usize>,
    pub max_length: Option<usize>,
    pub pattern: Option<String>,
    pub format: Option<Formats>,
    pub minimum: Option<usize>,
    pub maximum: Option<usize>,
    pub items: Option<Box<JsonSchema>>,
    pub min_items: Option<usize>,
    pub max_items: Option<usize>,
    pub unique_items: Option<bool>,
    pub contains: Option<Box<JsonSchema>>,
    pub ty_span: Option<SpanPair>,
    pub title_span: Option<SpanPair>,
    pub description_span: Option<SpanPair>,
    pub default_span: Option<SpanPair>,
    pub examples_span: Option<SpanPair>,
    pub enum_values_span: Option<SpanPair>,
    pub const_value_span: Option<SpanPair>,
    pub properties_span: Option<SpanPair>,
    pub required_span: Option<SpanPair>,
    pub min_length_span: Option<SpanPair>,
    pub max_length_span: Option<SpanPair>,
    pub pattern_span: Option<SpanPair>,
    pub format_span: Option<SpanPair>,
    pub minimum_span: Option<SpanPair>,
    pub maximum_span: Option<SpanPair>,
    pub items_span: Option<SpanPair>,
    pub min_items_span: Option<SpanPair>,
    pub max_items_span: Option<SpanPair>,
    pub unique_items_span: Option<SpanPair>,
    pub contains_span: Option<SpanPair>,
    pub depth: usize,
}

/// A keyword whose value is a literal, together with that value.
#[derive(Debug)]
pub enum KeywordValue {
    Title(String),
    Description(String),
    Default(JsonSchemaValues),
    Examples(Vec<String>),
    Enum(Vec<JsonSchemaValues>),
    Const(JsonSchemaValues),
    Required(Vec<String>),
    MinLength(usize),
    MaxLenght(usize),
    Pattern(String),
    Format(Formats),
    Minimum(usize),
    Maximum(usize),
    MinItems(usize),
    MaxItems(usize),
    UniqueItems(bool),
}

/// A keyword whose value is nested schemas, together with those schemas.
#[derive(Debug)]
pub enum ChildValue {
    Properties(Vec<Property>),
    Items(Box<JsonSchema>),
    Contains(Box<JsonSchema>),
}

/// A failure to compile a schema block, with the positions it concerns.
#[derive(Debug, PartialEq, Eq, Structural)]
pub enum CompileError {
    /// The keyword, the span of its first use and the span of the repeated one.
    DuplicateKeyword(JsonSchemaKeywords, Span, Span),
    /// The keyword, the kind the schema had when it came, and its span.
    IllegalKeywordForType(JsonSchemaKeywords, JsonSchemaTypes, Span),
    /// A block whose kind was never declared, at the given span.
    MissingType(Span),
}

pub open spec fn keyword_of(v: KeywordValue) -> JsonSchemaKeywords {
    match v {
        KeywordValue::Title(_) => JsonSchemaKeywords::Title,
        KeywordValue::Description(_) => JsonSchemaKeywords::Description,
        KeywordValue::Default(_) => JsonSchemaKeywords::Default,
        KeywordValue::Examples(_) => JsonSchemaKeywords::Examples,
        KeywordValue::Enum(_) => JsonSchemaKeywords::Enum,
        KeywordValue::Const(_) => JsonSchemaKeywords::Const,
        KeywordValue::Required(_) => JsonSchemaKeywords::Required,
        KeywordValue::MinLength(_) => JsonSchemaKeywords::MinLength,
        KeywordValue::MaxLenght(_) => JsonSchemaKeywords::MaxLenght,
        KeywordValue::Pattern(_) => JsonSchemaKeywords::Pattern,
        KeywordValue::Format(_) => JsonSchemaKeywords::Format,
        KeywordValue::Minimum(_) => JsonSchemaKeywords::Minimum,
        KeywordValue::Maximum(_) => JsonSchemaKeywords::Maximum,
        KeywordValue::MinItems(_) => JsonSchemaKeywords::MinItems,
        KeywordValue::MaxItems(_) => JsonSchemaKeywords::MaxItems,
        KeywordValue::UniqueItems(_) => JsonSchemaKeywords::UniqueItems,
    }
}

pub open spec fn child_keyword(c: ChildValue) -> JsonSchemaKeywords {
    match c {
        ChildValue::Properties(_) => JsonSchemaKeywords::Properties,
        ChildValue::Items(_) => JsonSchemaKeywords::Items,
        ChildValue::Contains(_) => JsonSchemaKeywords::Contains,
    }
}

/// The nested schemas handed over all sit at `depth` and are well formed.
pub open spec fn children_fit(c: ChildValue, depth: int) -> bool {
    match c {
        ChildValue::Properties(ps) => properties_fit(ps@, depth),
        ChildValue::Items(c) => c.depth == depth && c.wf(),
        ChildValue::Contains(c) => c.depth == depth && c.wf(),
    }
}

/// Every property schema sits at `depth` and is well formed, and no name is
/// used twice.
pub open spec fn properties_fit(ps: Seq<Property>, depth: int) -> bool {
    &&& forall|j: int| 0 <= j < ps.len() ==> (#[trigger] ps[j]).schema.depth == depth
    &&& forall|j: int| 0 <= j < ps.len() ==> (#[trigger] ps[j]).schema.wf()
    &&& forall|i: int, j: int|
        0 <= i < j < ps.len() ==> (#[trigger] ps[i]).name@ != (#[trigger] ps[j]).name@
}

impl KeywordValue {
    /// The keyword this value is for.
    pub fn keyword(&self) -> (r: JsonSchemaKeywords)
        ensures
            r == keyword_of(*self),
    {
        match self {
            KeywordValue::Title(_) => JsonSchemaKeywords::Title,
            KeywordValue::Description(_) => JsonSchemaKeywords::Description,
            KeywordValue::Default(_) => JsonSchemaKeywords::Default,
            KeywordValue::Examples(_) => JsonSchemaKeywords::Examples,
            KeywordValue::Enum(_) => JsonSchemaKeywords::Enum,
            KeywordValue::Const(_) => JsonSchemaKeywords::Const,
            KeywordValue::Required(_) => JsonSchemaKeywords::Required,
            KeywordValue::MinLength(_) => JsonSchemaKeywords::MinLength,
            KeywordValue::MaxLenght(_) => JsonSchemaKeywords::MaxLenght,
            KeywordValue::Pattern(_) => JsonSchemaKeywords::Pattern,
            KeywordValue::Format(_) => JsonSchemaKeywords::Format,
            KeywordValue::Minimum(_) => JsonSchemaKeywords::Minimum,
            KeywordValue::Maximum(_) => JsonSchemaKeywords::Maximum,
            KeywordValue::MinItems(_) => JsonSchemaKeywords::MinItems,
            KeywordValue::MaxItems(_) => JsonSchemaKeywords::MaxItems,
            KeywordValue::UniqueItems(_) => JsonSchemaKeywords::UniqueItems,
        }
    }
}

impl ChildValue {
    /// The keyword these schemas are for.
    pub fn keyword(&self) -> (r: JsonSchemaKeywords)
        ensures
            r == child_keyword(*self),
    {
        match self {
            ChildValue::Properties(_) => JsonSchemaKeywords::Properties,
            ChildValue::Items(_) => JsonSchemaKeywords::Items,
            ChildValue::Contains(_) => JsonSchemaKeywords::Contains,
        }
    }
}

impl Default for JsonSchema {
    fn default() -> (r: JsonSchema)
        ensures
            r.wf(),
            r.depth == 1,
            r.ty == JsonSchemaTypes::Unset,
            forall|k: JsonSchemaKeywords| !(#[trigger] r.has(k)) && r.span_of(k) is None,
    {
        JsonSchema::new()
    }
}

impl JsonSchema {
    /// Whether keyword `k` holds a value (`type` counts once it is declared).
    pub open spec fn has(self, k: JsonSchemaKeywords) -> bool {
        match k {
            JsonSchemaKeywords::Type => self.ty != JsonSchemaTypes::Unset,
            JsonSchemaKeywords::Title => self.title is Some,
            JsonSchemaKeywords::Description => self.description is Some,
            JsonSchemaKeywords::Default => self.default is Some,
            JsonSchemaKeywords::Examples => self.examples is Some,
            JsonSchemaKeywords::Enum => self.enum_values is Some,
            JsonSchemaKeywords::Const => self.const_value is Some,
            JsonSchemaKeywords::Properties => self.properties is Some,
            JsonSchemaKeywords::Required => self.required is Some,
            JsonSchemaKeywords::MinLength => self.min_length is Some,
            JsonSchemaKeywords::MaxLenght => self.max_length is Some,
            JsonSchemaKeywords::Pattern => self.pattern is Some,
            JsonSchemaKeywords::Format => self.format is Some,
            JsonSchemaKeywords::Minimum => self.minimum is Some,
            JsonSchemaKeywords::Maximum => self.maximum is Some,
            JsonSchemaKeywords::Items => self.items is Some,
            JsonSchemaKeywords::MinItems => self.min_items is Some,
            JsonSchemaKeywords::MaxItems => self.max_items is Some,
            JsonSchemaKeywords::UniqueItems => self.unique_items is Some,
            JsonSchemaKeywords::Contains => self.contains is Some,
            JsonSchemaKeywords::Struct => false,
        }
    }

    /// The recorded spans of keyword `k`.
    pub open spec fn span_of(self, k: JsonSchemaKeywords) -> Option<SpanPair> {
        match k {
            JsonSchemaKeywords::Type => self.ty_span,
            JsonSchemaKeywords::Title => self.title_span,
            JsonSchemaKeywords::Description => self.description_span,
            JsonSchemaKeywords::Default => self.default_span,
            JsonSchemaKeywords::Examples => self.examples_span,
            JsonSchemaKeywords::Enum => self.enum_values_span,
            JsonSchemaKeywords::Const => self.const_value_span,
            JsonSchemaKeywords::Properties => self.properties_span,
            JsonSchemaKeywords::Required => self.required_span,
            JsonSchemaKeywords::MinLength => self.min_length_span,
            JsonSchemaKeywords::MaxLenght => self.max_length_span,
            JsonSchemaKeywords::Pattern => self.pattern_span,
            JsonSchemaKeywords::Format => self.format_span,
            JsonSchemaKeywords::Minimum => self.minimum_span,
            JsonSchemaKeywords::Maximum => self.maximum_span,
            JsonSchemaKeywords::Items => self.items_span,
            JsonSchemaKeywords::MinItems => self.min_items_span,
            JsonSchemaKeywords::MaxItems => self.max_items_span,
            JsonSchemaKeywords::UniqueItems => self.unique_items_span,
            JsonSchemaKeywords::Contains => self.contains_span,
            JsonSchemaKeywords::Struct => None,
        }
    }

    /// What setting keyword `k`, written at `ks`, returns: `IllegalKeywordForType`
    /// when `k` is not legal for the current kind, `DuplicateKeyword` with the
    /// earlier span when `k` is already set, and success otherwise.
    pub open spec fn outcome(self, k: JsonSchemaKeywords, ks: Span) -> Result<(), CompileError> {
        if !legal(k, self.ty) {
            Err(CompileError::IllegalKeywordForType(k, self.ty, ks))
        } else if self.has(k) {
            Err(CompileError::DuplicateKeyword(k, self.span_of(k)->Some_0.0, ks))
        } else {
            Ok(())
        }
    }

    /// The schema holds literal `v` under its keyword.
    pub open spec fn stores(self, v: KeywordValue) -> bool {
        match v {
            KeywordValue::Title(x) => self.title == Some(x),
            KeywordValue::Description(x) => self.description == Some(x),
            KeywordValue::Default(x) => self.default == Some(x),
            KeywordValue::Examples(x) => self.examples == Some(x),
            KeywordValue::Enum(x) => self.enum_values == Some(x),
            KeywordValue::Const(x) => self.const_value == Some(x),
            KeywordValue::Required(x) => self.required == Some(x),
            KeywordValue::MinLength(x) => self.min_length == Some(x),
            KeywordValue::MaxLenght(x) => self.max_length == Some(x),
            KeywordValue::Pattern(x) => self.pattern == Some(x),
            KeywordValue::Format(x) => self.format == Some(x),
            KeywordValue::Minimum(x) => self.minimum == Some(x),
            KeywordValue::Maximum(x) => self.maximum == Some(x),
            KeywordValue::MinItems(x) => self.min_items == Some(x),
            KeywordValue::MaxItems(x) => self.max_items == Some(x),
            KeywordValue::UniqueItems(x) => self.unique_items == Some(x),
        }
    }

    /// The schema with `v` stored and its spans recorded.
    pub open spec fn with_value(self, v: KeywordValue, ks: Span, vs: Span) -> JsonSchema {
        match v {
            KeywordValue::Title(x) => JsonSchema { title: Some(x), title_span: Some((ks, vs)), ..self },
            KeywordValue::Description(x) => JsonSchema { description: Some(x), description_span: Some((ks, vs)), ..self },
            KeywordValue::Default(x) => JsonSchema { default: Some(x), default_span: Some((ks, vs)), ..self },
            KeywordValue::Examples(x) => JsonSchema { examples: Some(x), examples_span: Some((ks, vs)), ..self },
            KeywordValue::Enum(x) => JsonSchema { enum_values: Some(x), enum_values_span: Some((ks, vs)), ..self },
            KeywordValue::Const(x) => JsonSchema { const_value: Some(x), const_value_span: Some((ks, vs)), ..self },
            KeywordValue::Required(x) => JsonSchema { required: Some(x), required_span: Some((ks, vs)), ..self },
            KeywordValue::MinLength(x) => JsonSchema { min_length: Some(x), min_length_span: Some((ks, vs)), ..self },
            KeywordValue::MaxLenght(x) => JsonSchema { max_length: Some(x), max_length_span: Some((ks, vs)), ..self },
            KeywordValue::Pattern(x) => JsonSchema { pattern: Some(x), pattern_span: Some((ks, vs)), ..self },
            KeywordValue::Format(x) => JsonSchema { format: Some(x), format_span: Some((ks, vs)), ..self },
            KeywordValue::Minimum(x) => JsonSchema { minimum: Some(x), minimum_span: Some((ks, vs)), ..self },
            KeywordValue::Maximum(x) => JsonSchema { maximum: Some(x), maximum_span: Some((ks, vs)), ..self },
            KeywordValue::MinItems(x) => JsonSchema { min_items: Some(x), min_items_span: Some((ks, vs)), ..self },
            KeywordValue::MaxItems(x) => JsonSchema { max_items: Some(x), max_items_span: Some((ks, vs)), ..self },
            KeywordValue::UniqueItems(x) => JsonSchema { unique_items: Some(x), unique_items_span: Some((ks, vs)), ..self },
        }
    }

    /// The schema with nested schemas `c` stored and their spans recorded.
    pub open spec fn with_child(self, c: ChildValue, ks: Span, vs: Span) -> JsonSchema {
        match c {
            ChildValue::Properties(x) => JsonSchema { properties: Some(x), properties_span: Some((ks, vs)), ..self },
            ChildValue::Items(x) => JsonSchema { items: Some(x), items_span: Some((ks, vs)), ..self },
            ChildValue::Contains(x) => JsonSchema { contains: Some(x), contains_span: Some((ks, vs)), ..self },
        }
    }

    /// The schema is consistent: only keywords legal for its kind are set,
    /// each with its spans, and nested schemas sit one level deeper and are
    /// themselves consistent.
    pub open spec fn wf(self) -> bool
        decreases self,
    {
        &&& self.depth >= 1
        &&& forall|k: JsonSchemaKeywords| #[trigger] self.has(k) ==> legal(k, self.ty)
        &&& forall|k: JsonSchemaKeywords|
            k != JsonSchemaKeywords::Type ==> (#[trigger] self.has(k) <==> self.span_of(k) is Some)
        &&& self.has(JsonSchemaKeywords::Type) ==> self.ty_span is Some
        &&& self.items matches Some(c) ==> c.depth == self.depth + 1 && c.wf()
        &&& self.contains matches Some(c) ==> c.depth == self.depth + 1 && c.wf()
        &&& self.properties matches Some(ps) ==> {
            &&& forall|j: int| 0 <= j < ps.len() ==> (#[trigger] ps[j]).schema.depth == self.depth + 1
            &&& forall|j: int| 0 <= j < ps.len() ==> (#[trigger] ps[j]).schema.wf()
            &&& forall|i: int, j: int|
                0 <= i < j < ps.len() ==> (#[trigger] ps[i]).name@ != (#[trigger] ps[j]).name@
        }
    }
    /// An empty schema at `depth`: kind `Unset`, no keyword set.
    pub fn with_depth(depth: usize) -> (r: JsonSchema)
        requires
            depth >= 1,
        ensures
            r.wf(),
            r.depth == depth,
            r.ty == JsonSchemaTypes::Unset,
            forall|k: JsonSchemaKeywords| !(#[trigger] r.has(k)) && r.span_of(k) is None,
    {
        JsonSchema {
            ty: JsonSchemaTypes::Unset,
            title: None,
            description: None,
            default: None,
            examples: None,
            enum_values: None,
            const_value: None,
            properties: None,
            required: None,
            min_length: None,
            max_length: None,
            pattern: None,
            format: None,
            minimum: None,
            maximum: None,
            items: None,
            min_items: None,
            max_items: None,
            unique_items: None,
            contains: None,
            ty_span: None,
            title_span: None,
            description_span: None,
            default_span: None,
            examples_span: None,
            enum_values_span: None,
            const_value_span: None,
            properties_span: None,
            required_span: None,
            min_length_span: None,
            max_length_span: None,
            pattern_span: None,
            format_span: None,
            minimum_span: None,
            maximum_span: None,
            items_span: None,
            min_items_span: None,
            max_items_span: None,
            unique_items_span: None,
            contains_span: None,
            depth,
        }
    }

    /// An empty root schema.
    pub fn new() -> (r: JsonSchema)
        ensures
            r.wf(),
            r.depth == 1,
            r.ty == JsonSchemaTypes::Unset,
            forall|k: JsonSchemaKeywords| !(#[trigger] r.has(k)) && r.span_of(k) is None,
    {
        JsonSchema::with_depth(1)
    }

    /// Whether keyword `k` holds a value.
    pub fn is_set(&self, k: JsonSchemaKeywords) -> (r: bool)
        ensures
            r == self.has(k),
    {
        match k {
            JsonSchemaKeywords::Type => !self.ty.is_none(),
            JsonSchemaKeywords::Title => self.title.is_some(),
            JsonSchemaKeywords::Description => self.description.is_some(),
            JsonSchemaKeywords::Default => self.default.is_some(),
            JsonSchemaKeywords::Examples => self.examples.is_some(),
            JsonSchemaKeywords::Enum => self.enum_values.is_some(),
            JsonSchemaKeywords::Const => self.const_value.is_some(),
            JsonSchemaKeywords::Properties => self.properties.is_some(),
            JsonSchemaKeywords::Required => self.required.is_some(),
            JsonSchemaKeywords::MinLength => self.min_length.is_some(),
            JsonSchemaKeywords::MaxLenght => self.max_length.is_some(),
            JsonSchemaKeywords::Pattern => self.pattern.is_some(),
            JsonSchemaKeywords::Format => self.format.is_some(),
            JsonSchemaKeywords::Minimum => self.minimum.is_some(),
            JsonSchemaKeywords::Maximum => self.maximum.is_some(),
            JsonSchemaKeywords::Items => self.items.is_some(),
            JsonSchemaKeywords::MinItems => self.min_items.is_some(),
            JsonSchemaKeywords::MaxItems => self.max_items.is_some(),
            JsonSchemaKeywords::UniqueItems => self.unique_items.is_some(),
            JsonSchemaKeywords::Contains => self.contains.is_some(),
            JsonSchemaKeywords::Struct => false,
        }
    }

    /// The recorded spans of keyword `k`.
    pub fn spans(&self, k: JsonSchemaKeywords) -> (r: Option<SpanPair>)
        ensures
            r == self.span_of(k),
    {
        match k {
            JsonSchemaKeywords::Type => self.ty_span,
            JsonSchemaKeywords::Title => self.title_span,
            JsonSchemaKeywords::Description => self.description_span,
            JsonSchemaKeywords::Default => self.default_span,
            JsonSchemaKeywords::Examples => self.examples_span,
            JsonSchemaKeywords::Enum => self.enum_values_span,
            JsonSchemaKeywords::Const => self.const_value_span,
            JsonSchemaKeywords::Properties => self.properties_span,
            JsonSchemaKeywords::Required => self.required_span,
            JsonSchemaKeywords::MinLength => self.min_length_span,
            JsonSchemaKeywords::MaxLenght => self.max_length_span,
            JsonSchemaKeywords::Pattern => self.pattern_span,
            JsonSchemaKeywords::Format => self.format_span,
            JsonSchemaKeywords::Minimum => self.minimum_span,
            JsonSchemaKeywords::Maximum => self.maximum_span,
            JsonSchemaKeywords::Items => self.items_span,
            JsonSchemaKeywords::MinItems => self.min_items_span,
            JsonSchemaKeywords::MaxItems => self.max_items_span,
            JsonSchemaKeywords::UniqueItems => self.unique_items_span,
            JsonSchemaKeywords::Contains => self.contains_span,
            JsonSchemaKeywords::Struct => None,
        }
    }

    fn store(&mut self, v: KeywordValue, ks: Span, vs: Span)
        ensures
            *final(self) == old(self).with_value(v, ks, vs),
    {
        match v {
            KeywordValue::Title(x) => {
                self.title = Some(x);
                self.title_span = Some((ks, vs));
            },
            KeywordValue::Description(x) => {
                self.description = Some(x);
                self.description_span = Some((ks, vs));
            },
            KeywordValue::Default(x) => {
                self.default = Some(x);
                self.default_span = Some((ks, vs));
            },
            KeywordValue::Examples(x) => {
                self.examples = Some(x);
                self.examples_span = Some((ks, vs));
            },
            KeywordValue::Enum(x) => {
                self.enum_values = Some(x);
                self.enum_values_span = Some((ks, vs));
            },
            KeywordValue::Const(x) => {
                self.const_value = Some(x);
                self.const_value_span = Some((ks, vs));
            },
            KeywordValue::Required(x) => {
                self.required = Some(x);
                self.required_span = Some((ks, vs));
            },
            KeywordValue::MinLength(x) => {
                self.min_length = Some(x);
                self.min_length_span = Some((ks, vs));
            },
            KeywordValue::MaxLenght(x) => {
                self.max_length = Some(x);
                self.max_length_span = Some((ks, vs));
            },
            KeywordValue::Pattern(x) => {
                self.pattern = Some(x);
                self.pattern_span = Some((ks, vs));
            },
            KeywordValue::Format(x) => {
                self.format = Some(x);
                self.format_span = Some((ks, vs));
            },
            KeywordValue::Minimum(x) => {
                self.minimum = Some(x);
                self.minimum_span = Some((ks, vs));
            },
            KeywordValue::Maximum(x) => {
                self.maximum = Some(x);
                self.maximum_span = Some((ks, vs));
            },
            KeywordValue::MinItems(x) => {
                self.min_items = Some(x);
                self.min_items_span = Some((ks, vs));
            },
            KeywordValue::MaxItems(x) => {
                self.max_items = Some(x);
                self.max_items_span = Some((ks, vs));
            },
            KeywordValue::UniqueItems(x) => {
                self.unique_items = Some(x);
                self.unique_items_span = Some((ks, vs));
            },
        }
    }

    fn store_child(&mut self, c: ChildValue, ks: Span, vs: Span)
        ensures
            *final(self) == old(self).with_child(c, ks, vs),
    {
        match c {
            ChildValue::Properties(x) => {
                self.properties = Some(x);
                self.properties_span = Some((ks, vs));
            },
            ChildValue::Items(x) => {
                self.items = Some(x);
                self.items_span = Some((ks, vs));
            },
            ChildValue::Contains(x) => {
                self.contains = Some(x);
                self.contains_span = Some((ks, vs));
            },
        }
    }

    /// Fails with `MissingType` at `vs` while the kind is undeclared; for
    /// callers whose notation asks every block to declare one.
    pub fn require_type(&self, vs: Span) -> (r: Result<(), CompileError>)
        ensures
            r == if self.ty == JsonSchemaTypes::Unset {
                Err(CompileError::MissingType(vs))
            } else {
                Ok::<(), CompileError>(())
            },
    {
        if self.ty.is_none() {
            Err(CompileError::MissingType(vs))
        } else {
            Ok(())
        }
    }

    /// Declares the schema's kind. Fails with `DuplicateKeyword` when a kind
    /// other than `Unset` was declared before; the schema is then unchanged.
    pub fn set_type(&mut self, ty: JsonSchemaTypes, ks: Span, vs: Span) -> (r: Result<(), CompileError>)
        requires
            old(self).wf(),
        ensures
            final(self).wf(),
            r == old(self).outcome(JsonSchemaKeywords::Type, ks),
            old(self).ty != JsonSchemaTypes::Unset ==> r == Err::<(), CompileError>(
                CompileError::DuplicateKeyword(
                    JsonSchemaKeywords::Type,
                    old(self).ty_span.unwrap().0,
                    ks,
                ),
            ) && *final(self) == *old(self),
            old(self).ty == JsonSchemaTypes::Unset ==> r is Ok && *final(self) == (JsonSchema {
                ty: ty,
                ty_span: Some((ks, vs)),
                ..*old(self)
            }),
    {
        if !self.ty.is_none() {
            let first = self.ty_span.unwrap();
            return Err(CompileError::DuplicateKeyword(JsonSchemaKeywords::Type, first.0, ks));
        }
        self.ty = ty;
        self.ty_span = Some((ks, vs));
        proof {
            assert forall|k: JsonSchemaKeywords| #[trigger] self.has(k) implies legal(k, self.ty) by {
                assert(old(self).has(k) || k == JsonSchemaKeywords::Type);
            }
            assert forall|k: JsonSchemaKeywords|
                k != JsonSchemaKeywords::Type implies (#[trigger] self.has(k) <==> self.span_of(
                k,
            ) is Some) by {
                assert(old(self).has(k) == self.has(k));
            }
        }
        Ok(())
    }

    /// Sets a keyword other than `type`. Fails with `IllegalKeywordForType`
    /// when the keyword is not legal for the schema's current kind, and with
    /// `DuplicateKeyword` when it is already set; either way the schema is
    /// left unchanged.
    pub fn set_keyword(&mut self, v: KeywordValue, ks: Span, vs: Span) -> (r: Result<
        (),
        CompileError,
    >)
        requires
            old(self).wf(),
        ensures
            final(self).wf(),
            r == old(self).outcome(keyword_of(v), ks),
            ({
                let k = keyword_of(v);
                &&& !legal(k, old(self).ty) ==> r == Err::<(), CompileError>(
                    CompileError::IllegalKeywordForType(k, old(self).ty, ks),
                ) && *final(self) == *old(self)
                &&& legal(k, old(self).ty) && old(self).has(k) ==> r == Err::<(), CompileError>(
                    CompileError::DuplicateKeyword(k, old(self).span_of(k).unwrap().0, ks),
                ) && *final(self) == *old(self)
                &&& legal(k, old(self).ty) && !old(self).has(k) ==> r is Ok && *final(self)
                    == old(self).with_value(v, ks, vs)
            }),
    {
        let k = v.keyword();
        if !k.is_legal_for(self.ty) {
            return Err(CompileError::IllegalKeywordForType(k, self.ty, ks));
        }
        if self.is_set(k) {
            let first = self.spans(k).unwrap();
            return Err(CompileError::DuplicateKeyword(k, first.0, ks));
        }
        let ghost pre = *self;
        self.store(v, ks, vs);
        proof {
            assert forall|k2: JsonSchemaKeywords| #[trigger] self.has(k2) implies legal(k2, self.ty) by {
                assert(pre.has(k2) || k2 == k);
            }
            assert forall|k2: JsonSchemaKeywords|
                k2 != JsonSchemaKeywords::Type implies (#[trigger] self.has(k2) <==> self.span_of(
                k2,
            ) is Some) by {
                if k2 != k {
                    assert(pre.has(k2) == self.has(k2));
                    assert(pre.span_of(k2) == self.span_of(k2));
                }
            }
        }
        Ok(())
    }

    /// Attaches nested schemas under `properties`, `items` or `contains`.
    /// Fails with `IllegalKeywordForType` when the keyword is not legal for
    /// the schema's current kind, and with `DuplicateKeyword` when it is
    /// already set; either way the schema is left unchanged. The schemas must
    /// sit one level deeper than this one.
    pub fn add_child(&mut self, v: ChildValue, ks: Span, vs: Span) -> (r: Result<
        (),
        CompileError,
    >)
        requires
            old(self).wf(),
            children_fit(v, old(self).depth + 1),
        ensures
            final(self).wf(),
            r == old(self).outcome(child_keyword(v), ks),
            ({
                let k = child_keyword(v);
                &&& !legal(k, old(self).ty) ==> r == Err::<(), CompileError>(
                    CompileError::IllegalKeywordForType(k, old(self).ty, ks),
                ) && *final(self) == *old(self)
                &&& legal(k, old(self).ty) && old(self).has(k) ==> r == Err::<(), CompileError>(
                    CompileError::DuplicateKeyword(k, old(self).span_of(k).unwrap().0, ks),
                ) && *final(self) == *old(self)
                &&& legal(k, old(self).ty) && !old(self).has(k) ==> r is Ok && *final(self)
                    == old(self).with_child(v, ks, vs)
            }),
    {
        let k = v.keyword();
        if !k.is_legal_for(self.ty) {
            return Err(CompileError::IllegalKeywordForType(k, self.ty, ks));
        }
        if self.is_set(k) {
            let first = self.spans(k).unwrap();
            return Err(CompileError::DuplicateKeyword(k, first.0, ks));
        }
        let ghost pre = *self;
        self.store_child(v, ks, vs);
        proof {
            assert forall|k2: JsonSchemaKeywords| #[trigger] self.has(k2) implies legal(k2, self.ty) by {
                assert(pre.has(k2) || k2 == k);
            }
            assert forall|k2: JsonSchemaKeywords|
                k2 != JsonSchemaKeywords::Type implies (#[trigger] self.has(k2) <==> self.span_of(
                k2,
            ) is Some) by {
                if k2 != k {
                    assert(pre.has(k2) == self.has(k2));
                    assert(pre.span_of(k2) == self.span_of(k2));
                }
            }
        }
        Ok(())
    }
}

} // verus!
