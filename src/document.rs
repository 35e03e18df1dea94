use vstd::prelude::*;

use crate::catalog::{format_text, keyword_text, type_text, JsonSchemaKeywords};
use crate::schema::JsonSchema;
use crate::values::{char_text, JsonSchemaValues};

verus! {

broadcast use vstd::std_specs::vec::axiom_vec_index_decreases;

/// A value of the emitted schema document.
#[derive(Debug)]
pub enum JsonOut {
    Str(String),
    Number(i128),
    Bool(bool),
    Array(Vec<JsonOut>),
    Object(Vec<Member>),
}

/// A key of a document object with its value.
#[derive(Debug)]
pub struct Member {
    pub key: String,
    pub value: JsonOut,
}

/// The order in which a schema's keywords are emitted.
pub open spec fn key_order() -> Seq<JsonSchemaKeywords> {
    seq![
        JsonSchemaKeywords::Type,
        JsonSchemaKeywords::Title,
        JsonSchemaKeywords::Description,
        JsonSchemaKeywords::Default,
        JsonSchemaKeywords::Examples,
        JsonSchemaKeywords::Enum,
        JsonSchemaKeywords::Const,
        JsonSchemaKeywords::Properties,
        JsonSchemaKeywords::Required,
        JsonSchemaKeywords::MinLength,
        JsonSchemaKeywords::MaxLenght,
        JsonSchemaKeywords::Pattern,
        JsonSchemaKeywords::Format,
        JsonSchemaKeywords::Minimum,
        JsonSchemaKeywords::Maximum,
        JsonSchemaKeywords::Items,
        JsonSchemaKeywords::MinItems,
        JsonSchemaKeywords::MaxItems,
        JsonSchemaKeywords::UniqueItems,
        JsonSchemaKeywords::Contains,
    ]
}

/// Whether keyword `k` appears in the document of `node`: `type` always,
/// any other keyword exactly when it is set.
pub open spec fn is_emitted(node: JsonSchema, k: JsonSchemaKeywords) -> bool {
    k == JsonSchemaKeywords::Type || node.has(k)
}

/// The keywords emitted for `node` among the first `n` of the emission order.
pub open spec fn emitted_upto(node: JsonSchema, n: int) -> Seq<JsonSchemaKeywords>
    decreases n,
{
    if n <= 0 {
        Seq::empty()
    } else if is_emitted(node, key_order()[n - 1]) {
        emitted_upto(node, n - 1).push(key_order()[n - 1])
    } else {
        emitted_upto(node, n - 1)
    }
}

/// The keywords of `node`'s document, in order.
pub open spec fn emitted(node: JsonSchema) -> Seq<JsonSchemaKeywords> {
    emitted_upto(node, 20)
}

pub open spec fn is_text(o: JsonOut, s: Seq<char>) -> bool {
    o is Str && o->Str_0@ == s
}

/// `o` is the document form of literal `v`: a reference becomes its name, a
/// character a one-character string, a list an array of its members' forms.
pub open spec fn literal_out(v: JsonSchemaValues, o: JsonOut) -> bool
    decreases v,
{
    match v {
        JsonSchemaValues::Ident(s) => is_text(o, s@),
        JsonSchemaValues::Str(s) => is_text(o, s@),
        JsonSchemaValues::Number(n) => o == JsonOut::Number(n as i128),
        JsonSchemaValues::Bool(b) => o == JsonOut::Bool(b),
        JsonSchemaValues::Char(c) => is_text(o, seq![c]),
        JsonSchemaValues::Array(items) => o is Array && o->Array_0.len() == items.len() && forall|
            j: int,
        |
            0 <= j < items.len() ==> literal_out(#[trigger] items@[j], o->Array_0@[j]),
    }
}

pub open spec fn literals_out(vs: Vec<JsonSchemaValues>, o: JsonOut) -> bool {
    o is Array && o->Array_0.len() == vs.len() && forall|j: int|
        0 <= j < vs.len() ==> literal_out(#[trigger] vs@[j], o->Array_0@[j])
}

pub open spec fn texts_out(ss: Vec<String>, o: JsonOut) -> bool {
    o is Array && o->Array_0.len() == ss.len() && forall|j: int|
        0 <= j < ss.len() ==> is_text(#[trigger] o->Array_0@[j], ss@[j]@)
}

pub open spec fn count_out(n: Option<usize>, o: JsonOut) -> bool {
    o == JsonOut::Number(n->Some_0 as i128)
}

/// `o` is the document value of keyword `k` of `node`.
pub open spec fn value_out(node: JsonSchema, k: JsonSchemaKeywords, o: JsonOut) -> bool
    decreases node, 0int,
{
    match k {
        JsonSchemaKeywords::Type => is_text(o, type_text(node.ty)),
        JsonSchemaKeywords::Title => is_text(o, node.title->Some_0@),
        JsonSchemaKeywords::Description => is_text(o, node.description->Some_0@),
        JsonSchemaKeywords::Default => literal_out(node.default->Some_0, o),
        JsonSchemaKeywords::Examples => texts_out(node.examples->Some_0, o),
        JsonSchemaKeywords::Enum => literals_out(node.enum_values->Some_0, o),
        JsonSchemaKeywords::Const => literal_out(node.const_value->Some_0, o),
        JsonSchemaKeywords::Properties => match node.properties {
            Some(ps) => {
            &&& o is Object
            &&& o->Object_0.len() == ps.len()
            &&& forall|j: int|
                0 <= j < ps.len() ==> (#[trigger] o->Object_0@[j]).key@ == ps@[j].name@
                    && document_of(ps@[j].schema, o->Object_0@[j].value)
            },
            None => false,
        },
        JsonSchemaKeywords::Required => texts_out(node.required->Some_0, o),
        JsonSchemaKeywords::MinLength => count_out(node.min_length, o),
        JsonSchemaKeywords::MaxLenght => count_out(node.max_length, o),
        JsonSchemaKeywords::Pattern => is_text(o, node.pattern->Some_0@),
        JsonSchemaKeywords::Format => is_text(o, format_text(node.format->Some_0)),
        JsonSchemaKeywords::Minimum => count_out(node.minimum, o),
        JsonSchemaKeywords::Maximum => count_out(node.maximum, o),
        JsonSchemaKeywords::Items => match node.items {
            Some(c) => document_of(*c, o),
            None => false,
        },
        JsonSchemaKeywords::MinItems => count_out(node.min_items, o),
        JsonSchemaKeywords::MaxItems => count_out(node.max_items, o),
        JsonSchemaKeywords::UniqueItems => o == JsonOut::Bool(node.unique_items->Some_0),
        JsonSchemaKeywords::Contains => match node.contains {
            Some(c) => document_of(*c, o),
            None => false,
        },
        JsonSchemaKeywords::Struct => false,
    }
}

/// `o` is the document of `node`: an object with one member per emitted
/// keyword, in emission order, each under the keyword's external key.
pub open spec fn document_of(node: JsonSchema, o: JsonOut) -> bool
    decreases node, 1int,
{
    &&& o is Object
    &&& o->Object_0.len() == emitted(node).len()
    &&& forall|i: int|
        0 <= i < emitted(node).len() ==> (#[trigger] o->Object_0@[i]).key@ == keyword_text(
            emitted(node)[i],
        ) && value_out(node, emitted(node)[i], o->Object_0@[i].value)
}

fn key_order_vec() -> (r: Vec<JsonSchemaKeywords>)
    ensures
        r@ == key_order(),
{
    let r = vec![
        JsonSchemaKeywords::Type,
        JsonSchemaKeywords::Title,
        JsonSchemaKeywords::Description,
        JsonSchemaKeywords::Default,
        JsonSchemaKeywords::Examples,
        JsonSchemaKeywords::Enum,
        JsonSchemaKeywords::Const,
        JsonSchemaKeywords::Properties,
        JsonSchemaKeywords::Required,
        JsonSchemaKeywords::MinLength,
        JsonSchemaKeywords::MaxLenght,
        JsonSchemaKeywords::Pattern,
        JsonSchemaKeywords::Format,
        JsonSchemaKeywords::Minimum,
        JsonSchemaKeywords::Maximum,
        JsonSchemaKeywords::Items,
        JsonSchemaKeywords::MinItems,
        JsonSchemaKeywords::MaxItems,
        JsonSchemaKeywords::UniqueItems,
        JsonSchemaKeywords::Contains,
    ];
    assert(r@ =~= key_order());
    r
}

fn text_out(s: &str) -> (r: JsonOut)
    ensures
        is_text(r, s@),
{
    JsonOut::Str(String::from_str(s))
}

fn count_to_out(n: usize) -> (r: JsonOut)
    ensures
        r == JsonOut::Number(n as i128),
{
    JsonOut::Number(n as i128)
}

fn texts_to_out(ss: &Vec<String>) -> (r: JsonOut)
    ensures
        texts_out(*ss, r),
{
    let mut out: Vec<JsonOut> = Vec::new();
    let mut j: usize = 0;
    while j < ss.len()
        invariant
            0 <= j <= ss.len(),
            out.len() == j,
            forall|m: int| 0 <= m < j ==> is_text(#[trigger] out@[m], ss@[m]@),
        decreases ss.len() - j,
    {
        out.push(JsonOut::Str(ss[j].clone()));
        j = j + 1;
    }
    JsonOut::Array(out)
}

fn literals_to_out(vs: &Vec<JsonSchemaValues>) -> (r: JsonOut)
    ensures
        literals_out(*vs, r),
{
    let mut out: Vec<JsonOut> = Vec::new();
    let mut j: usize = 0;
    while j < vs.len()
        invariant
            0 <= j <= vs.len(),
            out.len() == j,
            forall|m: int| 0 <= m < j ==> literal_out(#[trigger] vs@[m], out@[m]),
        decreases vs.len() - j,
    {
        out.push(vs[j].to_out());
        j = j + 1;
    }
    JsonOut::Array(out)
}

impl JsonSchemaValues {
    /// The literal as a document value.
    pub fn to_out(&self) -> (r: JsonOut)
        ensures
            literal_out(*self, r),
        decreases *self,
    {
        match self {
            JsonSchemaValues::Ident(s) => JsonOut::Str(s.clone()),
            JsonSchemaValues::Str(s) => JsonOut::Str(s.clone()),
            JsonSchemaValues::Number(n) => JsonOut::Number(*n as i128),
            JsonSchemaValues::Bool(b) => JsonOut::Bool(*b),
            JsonSchemaValues::Char(c) => JsonOut::Str(char_text(*c)),
            JsonSchemaValues::Array(items) => {
                let mut out: Vec<JsonOut> = Vec::new();
                let mut j: usize = 0;
                while j < items.len()
                    invariant
                        0 <= j <= items.len(),
                        *self == JsonSchemaValues::Array(*items),
                        out.len() == j,
                        forall|m: int| 0 <= m < j ==> literal_out(#[trigger] items@[m], out@[m]),
                    decreases items.len() - j,
                {
                    proof {
                        let ghost v = *self;
                        assert(decreases_to!(v => v->Array_0));
                        assert(decreases_to!(*items => items[j as int]));
                    }
                    out.push(items[j].to_out());
                    j = j + 1;
                }
                JsonOut::Array(out)
            },
        }
    }
}

impl JsonSchema {
    /// The schema as a document: one member per emitted keyword, in the
    /// emission order, under its external key. `type` is always emitted
    /// (`"null"` while undeclared); every other keyword only when set.
    pub fn serialize(&self) -> (r: JsonOut)
        ensures
            document_of(*self, r),
        decreases *self, 1int,
    {
        let order = key_order_vec();
        let mut members: Vec<Member> = Vec::new();
        let mut i: usize = 0;
        while i < order.len()
            invariant
                order@ == key_order(),
                0 <= i <= 20,
                members.len() == emitted_upto(*self, i as int).len(),
                forall|m: int|
                    0 <= m < members.len() ==> (#[trigger] members@[m]).key@ == keyword_text(
                        emitted_upto(*self, i as int)[m],
                    ) && value_out(*self, emitted_upto(*self, i as int)[m], members@[m].value),
            decreases 20 - i,
        {
            let k = order[i];
            if matches!(k, JsonSchemaKeywords::Type) || self.is_set(k) {
                let value = self.keyword_out(k);
                members.push(Member { key: String::from_str(k.as_str()), value });
            }
            i = i + 1;
        }
        JsonOut::Object(members)
    }

    /// The document value of keyword `k`.
    fn keyword_out(&self, k: JsonSchemaKeywords) -> (r: JsonOut)
        requires
            is_emitted(*self, k),
        ensures
            value_out(*self, k, r),
        decreases *self, 0int,
    {
        match k {
            JsonSchemaKeywords::Type => text_out(self.ty.as_str()),
            JsonSchemaKeywords::Title => JsonOut::Str(self.title.as_ref().unwrap().clone()),
            JsonSchemaKeywords::Description => JsonOut::Str(
                self.description.as_ref().unwrap().clone(),
            ),
            JsonSchemaKeywords::Default => self.default.as_ref().unwrap().to_out(),
            JsonSchemaKeywords::Examples => texts_to_out(self.examples.as_ref().unwrap()),
            JsonSchemaKeywords::Enum => literals_to_out(self.enum_values.as_ref().unwrap()),
            JsonSchemaKeywords::Const => self.const_value.as_ref().unwrap().to_out(),
            JsonSchemaKeywords::Properties => {
                let ps = self.properties.as_ref().unwrap();
                let mut out: Vec<Member> = Vec::new();
                let mut j: usize = 0;
                while j < ps.len()
                    invariant
                        self.properties == Some(*ps),
                        0 <= j <= ps.len(),
                        out.len() == j,
                        forall|m: int|
                            0 <= m < j ==> (#[trigger] out@[m]).key@ == ps@[m].name@
                                && document_of(ps@[m].schema, out@[m].value),
                    decreases ps.len() - j,
                {
                    proof {
                        let ghost node = *self;
                        assert(decreases_to!(node => node.properties));
                        assert(decreases_to!(node.properties => node.properties->Some_0));
                        assert(decreases_to!(*ps => ps[j as int]));
                        assert(decreases_to!(ps[j as int] => ps[j as int].schema));
                    }
                    let value = ps[j].schema.serialize();
                    out.push(Member { key: ps[j].name.clone(), value });
                    j = j + 1;
                }
                JsonOut::Object(out)
            },
            JsonSchemaKeywords::Required => texts_to_out(self.required.as_ref().unwrap()),
            JsonSchemaKeywords::MinLength => count_to_out(self.min_length.unwrap()),
            JsonSchemaKeywords::MaxLenght => count_to_out(self.max_length.unwrap()),
            JsonSchemaKeywords::Pattern => JsonOut::Str(self.pattern.as_ref().unwrap().clone()),
            JsonSchemaKeywords::Format => text_out(self.format.unwrap().as_str()),
            JsonSchemaKeywords::Minimum => count_to_out(self.minimum.unwrap()),
            JsonSchemaKeywords::Maximum => count_to_out(self.maximum.unwrap()),
            JsonSchemaKeywords::Items => self.items.as_ref().unwrap().serialize(),
            JsonSchemaKeywords::MinItems => count_to_out(self.min_items.unwrap()),
            JsonSchemaKeywords::MaxItems => count_to_out(self.max_items.unwrap()),
            JsonSchemaKeywords::UniqueItems => JsonOut::Bool(self.unique_items.unwrap()),
            JsonSchemaKeywords::Contains => self.contains.as_ref().unwrap().serialize(),
            JsonSchemaKeywords::Struct => JsonOut::Bool(false),
        }
    }
}

} // verus!
