use vstd::prelude::*;

use crate::catalog::{keyword_text, legal, JsonSchemaKeywords, JsonSchemaTypes, Span};
use crate::document::{JsonOut, document_of, emitted, emitted_upto, is_emitted, key_order, value_out};
use crate::schema::{
    child_keyword, children_fit, keyword_of, ChildValue, CompileError, JsonSchema, KeywordValue,
};

verus! {

proof fn lemma_emitted_upto_has(node: JsonSchema, n: int, j: int)
    requires
        0 <= j < n <= 20,
        is_emitted(node, key_order()[j]),
    ensures
        exists|i: int|
            0 <= i < emitted_upto(node, n).len() && #[trigger] emitted_upto(node, n)[i]
                == key_order()[j],
    decreases n,
{
    if j < n - 1 {
        lemma_emitted_upto_has(node, n - 1, j);
        let i = choose|i: int|
            0 <= i < emitted_upto(node, n - 1).len() && #[trigger] emitted_upto(node, n - 1)[i]
                == key_order()[j];
        assert(emitted_upto(node, n)[i] == key_order()[j]);
    } else {
        let i = emitted_upto(node, n - 1).len() as int;
        assert(emitted_upto(node, n)[i] == key_order()[j]);
    }
}

proof fn lemma_emitted_upto_only(node: JsonSchema, n: int, i: int)
    requires
        0 <= n <= 20,
        0 <= i < emitted_upto(node, n).len(),
    ensures
        is_emitted(node, emitted_upto(node, n)[i]),
        emitted_upto(node, n)[i] != JsonSchemaKeywords::Struct,
    decreases n,
{
    if n > 0 && i < emitted_upto(node, n - 1).len() {
        lemma_emitted_upto_only(node, n - 1, i);
    }
}

/// A keyword appears in a schema's document exactly when it is emitted
/// (`type` always, any other keyword when set), under its external key and
/// with its value.
pub proof fn lemma_document_keys(node: JsonSchema, o: JsonOut, k: JsonSchemaKeywords)
    requires
        document_of(node, o),
        k != JsonSchemaKeywords::Struct,
    ensures
        is_emitted(node, k) <==> exists|i: int|
            0 <= i < o->Object_0.len() && #[trigger] emitted(node)[i] == k,
        is_emitted(node, k) ==> exists|i: int|
            0 <= i < o->Object_0.len() && (#[trigger] o->Object_0@[i]).key@ == keyword_text(k)
                && value_out(node, k, o->Object_0@[i].value),
{
    let j = choose|j: int| 0 <= j < 20 && key_order()[j] == k;
    if is_emitted(node, k) {
        lemma_emitted_upto_has(node, 20, j);
        let i = choose|i: int|
            0 <= i < emitted_upto(node, 20).len() && #[trigger] emitted_upto(node, 20)[i]
                == key_order()[j];
        assert(o->Object_0@[i].key@ == keyword_text(k));
    }
    if exists|i: int| 0 <= i < o->Object_0.len() && #[trigger] emitted(node)[i] == k {
        let i = choose|i: int| 0 <= i < o->Object_0.len() && #[trigger] emitted(node)[i] == k;
        lemma_emitted_upto_only(node, 20, i);
    }
}

/// A literal keyword legal for the schema's kind and not yet set is
/// accepted, and the schema's document then holds it under its external key.
pub proof fn lemma_legal_keyword_round_trip(
    pre: JsonSchema,
    v: KeywordValue,
    ks: Span,
    vs: Span,
    o: JsonOut,
)
    requires
        pre.wf(),
        legal(keyword_of(v), pre.ty),
        !pre.has(keyword_of(v)),
        document_of(pre.with_value(v, ks, vs), o),
    ensures
        pre.outcome(keyword_of(v), ks) == Ok::<(), CompileError>(()),
        exists|i: int|
            0 <= i < o->Object_0.len() && (#[trigger] o->Object_0@[i]).key@ == keyword_text(
                keyword_of(v),
            ) && value_out(pre.with_value(v, ks, vs), keyword_of(v), o->Object_0@[i].value),
{
    lemma_document_keys(pre.with_value(v, ks, vs), o, keyword_of(v));
}

/// Nested schemas under a keyword legal for the schema's kind and not yet
/// set are accepted, and the schema's document then holds them under the
/// keyword's external key.
pub proof fn lemma_legal_child_round_trip(
    pre: JsonSchema,
    c: ChildValue,
    ks: Span,
    vs: Span,
    o: JsonOut,
)
    requires
        pre.wf(),
        children_fit(c, pre.depth + 1),
        legal(child_keyword(c), pre.ty),
        !pre.has(child_keyword(c)),
        document_of(pre.with_child(c, ks, vs), o),
    ensures
        pre.outcome(child_keyword(c), ks) == Ok::<(), CompileError>(()),
        exists|i: int|
            0 <= i < o->Object_0.len() && (#[trigger] o->Object_0@[i]).key@ == keyword_text(
                child_keyword(c),
            ) && value_out(pre.with_child(c, ks, vs), child_keyword(c), o->Object_0@[i].value),
{
    lemma_document_keys(pre.with_child(c, ks, vs), o, child_keyword(c));
}

/// Once a keyword is set, setting it again with any value fails with
/// `DuplicateKeyword`, carrying the span of the first use and of the second.
pub proof fn lemma_keyword_twice(pre: JsonSchema, v: KeywordValue, ks1: Span, vs1: Span, ks2: Span)
    requires
        pre.wf(),
        legal(keyword_of(v), pre.ty),
        !pre.has(keyword_of(v)),
    ensures
        pre.with_value(v, ks1, vs1).outcome(keyword_of(v), ks2) == Err::<(), CompileError>(
            CompileError::DuplicateKeyword(keyword_of(v), ks1, ks2),
        ),
{
}

/// The same for nested schemas.
pub proof fn lemma_child_twice(pre: JsonSchema, c: ChildValue, ks1: Span, vs1: Span, ks2: Span)
    requires
        pre.wf(),
        legal(child_keyword(c), pre.ty),
        !pre.has(child_keyword(c)),
    ensures
        pre.with_child(c, ks1, vs1).outcome(child_keyword(c), ks2) == Err::<(), CompileError>(
            CompileError::DuplicateKeyword(child_keyword(c), ks1, ks2),
        ),
{
}

/// The same for the kind: once declared, declaring it again fails.
pub proof fn lemma_type_twice(pre: JsonSchema, t: JsonSchemaTypes, ks1: Span, vs1: Span, ks2: Span)
    requires
        pre.wf(),
        pre.ty == JsonSchemaTypes::Unset,
        t != JsonSchemaTypes::Unset,
    ensures
        (JsonSchema { ty: t, ty_span: Some((ks1, vs1)), ..pre }).outcome(
            JsonSchemaKeywords::Type,
            ks2,
        ) == Err::<(), CompileError>(
            CompileError::DuplicateKeyword(JsonSchemaKeywords::Type, ks1, ks2),
        ),
{
}

/// In a well-formed schema every nested schema sits exactly one level deeper
/// than its parent, and is itself well formed.
pub proof fn lemma_child_depth(node: JsonSchema)
    requires
        node.wf(),
    ensures
        node.depth >= 1,
        node.items matches Some(c) ==> c.depth == node.depth + 1 && c.wf(),
        node.contains matches Some(c) ==> c.depth == node.depth + 1 && c.wf(),
        node.properties matches Some(ps) ==> forall|j: int|
            0 <= j < ps.len() ==> (#[trigger] ps@[j]).schema.depth == node.depth + 1
                && ps@[j].schema.wf(),
{
}

} // verus!
