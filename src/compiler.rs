use vstd::prelude::*;

use crate::catalog::{legal, JsonSchemaKeywords, JsonSchemaTypes, Span};
use crate::schema::{
    child_keyword, keyword_of, properties_fit, ChildValue, CompileError, JsonSchema, KeywordValue,
    Property, SpanPair,
};

verus! {

broadcast use vstd::std_specs::vec::axiom_vec_index_decreases;

/// One keyword of a schema block as the front-end read it, with the spans of
/// the keyword and of its value.
#[derive(Debug)]
pub struct Entry {
    pub value: EntryValue,
    pub keyword_span: Span,
    pub value_span: Span,
}

/// What follows a keyword: a kind, a literal, or nested blocks.
#[derive(Debug)]
pub enum EntryValue {
    Type(JsonSchemaTypes),
    Literal(KeywordValue),
    Items(Vec<Entry>),
    Contains(Vec<Entry>),
    Properties(Vec<PropertyEntry>),
}

/// A named block under `properties`.
#[derive(Debug)]
pub struct PropertyEntry {
    pub name: String,
    pub entries: Vec<Entry>,
}

pub open spec fn entry_keyword(e: Entry) -> JsonSchemaKeywords {
    match e.value {
        EntryValue::Type(_) => JsonSchemaKeywords::Type,
        EntryValue::Literal(v) => keyword_of(v),
        EntryValue::Items(_) => JsonSchemaKeywords::Items,
        EntryValue::Contains(_) => JsonSchemaKeywords::Contains,
        EntryValue::Properties(_) => JsonSchemaKeywords::Properties,
    }
}

/// What compiling part of a block has recorded so far: the declared kind and
/// the spans of each keyword seen.
pub type Record = (JsonSchemaTypes, Map<JsonSchemaKeywords, SpanPair>);

/// One entry applied to a record. `nested` is the failure of the entry's
/// nested blocks, if any; it comes before the entry's own checks.
pub open spec fn step(r: Record, e: Entry, nested: Option<CompileError>) -> Result<
    Record,
    CompileError,
> {
    let k = entry_keyword(e);
    let ks = e.keyword_span;
    let vs = e.value_span;
    match e.value {
        EntryValue::Type(t) => if r.0 != JsonSchemaTypes::Unset {
            Err(CompileError::DuplicateKeyword(JsonSchemaKeywords::Type, r.1[k].0, ks))
        } else {
            Ok((t, r.1.insert(k, (ks, vs))))
        },
        _ => if nested is Some {
            Err(nested.unwrap())
        } else if !legal(k, r.0) {
            Err(CompileError::IllegalKeywordForType(k, r.0, ks))
        } else if r.1.dom().contains(k) {
            Err(CompileError::DuplicateKeyword(k, r.1[k].0, ks))
        } else {
            Ok((r.0, r.1.insert(k, (ks, vs))))
        },
    }
}

/// The first `n` entries of a block applied in order, stopping at the first
/// failure.
pub open spec fn run(es: Vec<Entry>, n: int) -> Result<Record, CompileError>
    decreases es, n,
{
    if n <= 0 || n > es.len() {
        Ok((JsonSchemaTypes::Unset, Map::empty()))
    } else {
        match run(es, n - 1) {
            Err(x) => Err(x),
            Ok(r) => step(r, es[n - 1], nested_error(es[n - 1])),
        }
    }
}

/// The first failure in the blocks nested under an entry.
pub open spec fn nested_error(e: Entry) -> Option<CompileError>
    decreases e, 0int,
{
    match e.value {
        EntryValue::Items(v) => block_error(v),
        EntryValue::Contains(v) => block_error(v),
        EntryValue::Properties(ps) => properties_error(ps, ps.len() as int),
        _ => None,
    }
}

/// The failure of a whole block, if it has one.
pub open spec fn block_error(es: Vec<Entry>) -> Option<CompileError>
    decreases es, es.len() + 1,
{
    match run(es, es.len() as int) {
        Err(x) => Some(x),
        Ok(_) => None,
    }
}

/// The first failure among the first `n` property blocks.
pub open spec fn properties_error(ps: Vec<PropertyEntry>, n: int) -> Option<CompileError>
    decreases ps, n,
{
    if n <= 0 || n > ps.len() {
        None
    } else {
        match properties_error(ps, n - 1) {
            Some(x) => Some(x),
            None => block_error(ps[n - 1].entries),
        }
    }
}

/// Every block nested in the first `n` entries, at `depth` and below, has a
/// depth that fits in a `usize`.
pub open spec fn block_fits(es: Vec<Entry>, n: int, depth: int) -> bool
    decreases es, n,
{
    if n <= 0 || n > es.len() {
        true
    } else {
        block_fits(es, n - 1, depth) && entry_fits(es[n - 1], depth)
    }
}

pub open spec fn entry_fits(e: Entry, depth: int) -> bool
    decreases e, 0int,
{
    match e.value {
        EntryValue::Items(v) => depth < usize::MAX && block_fits(v, v.len() as int, depth + 1),
        EntryValue::Contains(v) => depth < usize::MAX && block_fits(v, v.len() as int, depth + 1),
        EntryValue::Properties(ps) => depth < usize::MAX && property_blocks_fit(
            ps,
            ps.len() as int,
            depth + 1,
        ),
        _ => true,
    }
}

pub open spec fn property_blocks_fit(ps: Vec<PropertyEntry>, n: int, depth: int) -> bool
    decreases ps, n,
{
    if n <= 0 || n > ps.len() {
        true
    } else {
        property_blocks_fit(ps, n - 1, depth) && block_fits(
            ps[n - 1].entries,
            ps[n - 1].entries.len() as int,
            depth,
        )
    }
}

/// The schema's kind and spans are those of the record.
pub open spec fn holds_record(node: JsonSchema, r: Record) -> bool {
    &&& node.ty == r.0
    &&& forall|k: JsonSchemaKeywords|
        #[trigger] node.span_of(k) == if r.1.dom().contains(k) {
            Some(r.1[k])
        } else {
            None
        }
}

/// The schema holds the literal of each of the first `n` entries that has one.
pub open spec fn stores_literals(node: JsonSchema, es: Vec<Entry>, n: int) -> bool {
    forall|i: int|
        0 <= i < n ==> ((#[trigger] es[i]).value matches EntryValue::Literal(v) ==> node.stores(v))
}

/// `node` is what block `es` compiles to: the block has no failure, the
/// schema holds its kind, spans and literals, and each nested schema is what
/// its own block compiles to.
pub open spec fn compiled_from(node: JsonSchema, es: Vec<Entry>) -> bool
    decreases es, 1int,
{
    &&& run(es, es.len() as int) is Ok
    &&& holds_record(node, run(es, es.len() as int)->Ok_0)
    &&& stores_literals(node, es, es.len() as int)
    &&& children_built(node, es, es.len() as int)
}

/// Each nested block among the first `n` entries compiled to the schema
/// that `node` holds under its keyword.
pub open spec fn children_built(node: JsonSchema, es: Vec<Entry>, n: int) -> bool
    decreases es, 0int,
{
    forall|i: int|
        0 <= i < n && n <= es.len() ==> match (#[trigger] es[i]).value {
            EntryValue::Items(v) => (node.items matches Some(c) && compiled_from(*c, v)),
            EntryValue::Contains(v) => (node.contains matches Some(c) && compiled_from(*c, v)),
            EntryValue::Properties(ps) => (node.properties matches Some(out) && properties_built(
                out@,
                ps,
                ps.len() as int,
            )),
            _ => true,
        }
}

/// The position of the last of the first `n` property blocks named `name`,
/// or -1 when none is.
pub open spec fn last_named(ps: Vec<PropertyEntry>, n: int, name: Seq<char>) -> int
    decreases n,
{
    if n <= 0 || n > ps.len() {
        -1
    } else if ps[n - 1].name@ == name {
        n - 1
    } else {
        last_named(ps, n - 1, name)
    }
}

/// `out` holds one property for each name among the first `n` property
/// blocks, compiled from the last block given that name.
pub open spec fn properties_built(out: Seq<Property>, ps: Vec<PropertyEntry>, n: int) -> bool
    decreases ps, n,
{
    &&& forall|j: int|
        #![trigger out[j]]
        0 <= j < out.len() ==> 0 <= last_named(ps, n, out[j].name@) < ps.len() && compiled_from(
            out[j].schema,
            ps[last_named(ps, n, out[j].name@)].entries,
        )
    &&& forall|m: int|
        0 <= m < n ==> exists|j: int|
            0 <= j < out.len() && (#[trigger] out[j]).name@ == (#[trigger] ps[m]).name@
}

spec fn entry_built(node: JsonSchema, e: Entry) -> bool {
    match e.value {
        EntryValue::Items(v) => (node.items matches Some(c) && compiled_from(*c, v)),
        EntryValue::Contains(v) => (node.contains matches Some(c) && compiled_from(*c, v)),
        EntryValue::Properties(ps) => (node.properties matches Some(out) && properties_built(
            out@,
            ps,
            ps.len() as int,
        )),
        _ => true,
    }
}

proof fn lemma_block_fits(es: Vec<Entry>, n: int, i: int, depth: int)
    requires
        block_fits(es, n, depth),
        0 <= i < n <= es.len(),
    ensures
        entry_fits(es[i], depth),
    decreases n,
{
    if i < n - 1 {
        lemma_block_fits(es, n - 1, i, depth);
    }
}

proof fn lemma_properties_fit(ps: Vec<PropertyEntry>, n: int, i: int, depth: int)
    requires
        property_blocks_fit(ps, n, depth),
        0 <= i < n <= ps.len(),
    ensures
        block_fits(ps[i].entries, ps[i].entries.len() as int, depth),
    decreases n,
{
    if i < n - 1 {
        lemma_properties_fit(ps, n - 1, i, depth);
    }
}

proof fn lemma_run_error_stays(es: Vec<Entry>, i: int, n: int)
    requires
        0 <= i <= n <= es.len(),
        run(es, i) is Err,
    ensures
        run(es, n) == run(es, i),
    decreases n - i,
{
    if i < n {
        lemma_run_error_stays(es, i, n - 1);
    }
}

proof fn lemma_properties_error_stays(ps: Vec<PropertyEntry>, i: int, n: int)
    requires
        0 <= i <= n <= ps.len(),
        properties_error(ps, i) is Some,
    ensures
        properties_error(ps, n) == properties_error(ps, i),
    decreases n - i,
{
    if i < n {
        lemma_properties_error_stays(ps, i, n - 1);
    }
}

proof fn lemma_record_insert(
    pre: JsonSchema,
    post: JsonSchema,
    r: Record,
    k: JsonSchemaKeywords,
    next: Record,
)
    requires
        holds_record(pre, r),
        forall|k2: JsonSchemaKeywords| k2 != k ==> #[trigger] post.span_of(k2) == pre.span_of(k2),
        post.span_of(k) == Some(next.1[k]),
        next.0 == post.ty,
        next.1 == r.1.insert(k, next.1[k]),
    ensures
        holds_record(post, next),
{
    assert forall|k2: JsonSchemaKeywords| #[trigger]
        post.span_of(k2) == if next.1.dom().contains(k2) {
            Some(next.1[k2])
        } else {
            None
        } by {
        if k2 != k {
            assert(pre.span_of(k2) == if r.1.dom().contains(k2) {
                Some(r.1[k2])
            } else {
                None
            });
        }
    }
}

proof fn lemma_properties_step(
    all: Vec<PropertyEntry>,
    i: int,
    before: Seq<Property>,
    mid: Seq<Property>,
    out: Seq<Property>,
    found: bool,
    j: int,
)
    requires
        0 <= i < all.len(),
        properties_built(before, all, i),
        forall|m: int| 0 <= m < mid.len() ==> (#[trigger] mid[m]).name@ != all[i].name@,
        forall|m: int|
            0 <= m < mid.len() ==> #[trigger] mid[m] == before[if found && m >= j {
                m + 1
            } else {
                m
            }],
        mid.len() == if found {
            before.len() - 1
        } else {
            before.len() as int
        },
        found ==> 0 <= j < before.len() && before[j].name@ == all[i].name@,
        out.len() == mid.len() + 1,
        forall|m: int| 0 <= m < mid.len() ==> #[trigger] out[m] == mid[m],
        out[mid.len() as int].name@ == all[i].name@,
        compiled_from(out[mid.len() as int].schema, all[i].entries),
    ensures
        properties_built(out, all, i + 1),
{
    let last = mid.len() as int;
    assert(out[last].name@ == all[i].name@);
    assert forall|jj: int|
        #![trigger out[jj]]
        0 <= jj < out.len() implies 0 <= last_named(all, i + 1, out[jj].name@) < all.len()
            && compiled_from(out[jj].schema, all[last_named(all, i + 1, out[jj].name@)].entries) by {
        if jj < mid.len() {
            let jo = if found && jj >= j {
                jj + 1
            } else {
                jj
            };
            assert(out[jj] == mid[jj]);
            assert(mid[jj] == before[jo]);
            assert(mid[jj].name@ != all[i].name@);
            assert(last_named(all, i + 1, out[jj].name@) == last_named(all, i, before[jo].name@));
        } else {
            assert(last_named(all, i + 1, out[jj].name@) == i);
        }
    }
    assert forall|m: int| 0 <= m < i + 1 implies exists|jj: int|
        0 <= jj < out.len() && (#[trigger] out[jj]).name@ == (
        #[trigger] all[m]).name@ by {
        if m == i || all[m].name@ == all[i].name@ {
            assert(out[last].name@ == all[m].name@);
        } else {
            let jo = choose|jo: int|
                0 <= jo < before.len() && (#[trigger] before[jo]).name@ == (
                #[trigger] all[m]).name@;
            let jj = if found && jo > j {
                jo - 1
            } else {
                jo
            };
            assert(found ==> before[j].name@ == all[i].name@);
            assert(mid[jj] == before[jo]);
            assert(out[jj].name@ == all[m].name@);
        }
    }
}

/// Compiles a block at `depth`: applies its entries in order and stops at
/// the first failure, compiling each nested block one level deeper before
/// its keyword is checked.
pub fn compile_block(entries: Vec<Entry>, depth: usize) -> (r: Result<JsonSchema, CompileError>)
    requires
        depth >= 1,
        block_fits(entries, entries.len() as int, depth as int),
    ensures
        match run(entries, entries.len() as int) {
            Err(x) => r == Err::<JsonSchema, CompileError>(x),
            Ok(rec) => r is Ok && r->Ok_0.wf() && r->Ok_0.depth == depth && holds_record(
                r->Ok_0,
                rec,
            ) && compiled_from(r->Ok_0, entries),
        },
    decreases entries,
{
    let ghost all = entries;
    let n = entries.len();
    let mut rest = entries;
    let mut node = JsonSchema::with_depth(depth);
    let mut i: usize = 0;
    proof {
        assert forall|k: JsonSchemaKeywords| #[trigger] node.span_of(k) is None by {
            assert(!node.has(k));
        }
    }
    while i < n
        invariant
            all == entries,
            all.len() == n,
            0 <= i <= n,
            rest@ == all@.subrange(i as int, n as int),
            depth >= 1,
            block_fits(all, n as int, depth as int),
            node.wf(),
            node.depth == depth,
            run(all, i as int) is Ok,
            holds_record(node, run(all, i as int)->Ok_0),
            stores_literals(node, all, i as int),
            children_built(node, all, i as int),
        decreases n - i,
    {
        assert(rest@[0] == all@[i as int]);
        let e = rest.remove(0);
        let ghost eg = e;
        let ghost rec = run(all, i as int)->Ok_0;
        let ghost pre = node;
        proof {
            lemma_block_fits(all, n as int, i as int, depth as int);
            assert(decreases_to!(all => all[i as int]));
            assert(decreases_to!(eg => eg.value));
            assert(run(all, i + 1) == step(rec, eg, nested_error(eg)));
            let k = entry_keyword(eg);
            assert(pre.span_of(k) == if rec.1.dom().contains(k) {
                Some(rec.1[k])
            } else {
                None
            });
            assert(pre.span_of(JsonSchemaKeywords::Type) == if rec.1.dom().contains(
                JsonSchemaKeywords::Type,
            ) {
                Some(rec.1[JsonSchemaKeywords::Type])
            } else {
                None
            });
        }
        let ks = e.keyword_span;
        let vs = e.value_span;
        let res = match e.value {
            EntryValue::Type(t) => node.set_type(t, ks, vs),
            EntryValue::Literal(v) => node.set_keyword(v, ks, vs),
            EntryValue::Items(inner) => {
                proof {
                    assert(decreases_to!(eg.value => eg.value->Items_0));
                }
                match compile_block(inner, depth + 1) {
                    Err(x) => Err(x),
                    Ok(c) => node.add_child(ChildValue::Items(Box::new(c)), ks, vs),
                }
            },
            EntryValue::Contains(inner) => {
                proof {
                    assert(decreases_to!(eg.value => eg.value->Contains_0));
                }
                match compile_block(inner, depth + 1) {
                    Err(x) => Err(x),
                    Ok(c) => node.add_child(ChildValue::Contains(Box::new(c)), ks, vs),
                }
            },
            EntryValue::Properties(ps) => {
                proof {
                    assert(decreases_to!(eg.value => eg.value->Properties_0));
                }
                match compile_properties(ps, depth + 1) {
                    Err(x) => Err(x),
                    Ok(c) => node.add_child(ChildValue::Properties(c), ks, vs),
                }
            },
        };
        if let Err(x) = res {
            proof {
                assert(run(all, i + 1) == Err::<Record, CompileError>(x));
                lemma_run_error_stays(all, i + 1, n as int);
            }
            return Err(x);
        }
        proof {
            let k = entry_keyword(eg);
            assert(run(all, i + 1) is Ok);
            assert forall|k2: JsonSchemaKeywords| k2 != k implies #[trigger] node.span_of(k2)
                == pre.span_of(k2) by {}
            lemma_record_insert(pre, node, rec, k, run(all, i + 1)->Ok_0);
            assert forall|j: int| 0 <= j < i + 1 implies ((#[trigger] all[j]).value matches EntryValue::Literal(v) ==> node.stores(v)) by {
                if j < i {
                    match all[j].value {
                        EntryValue::Literal(v) => {
                            assert(pre.stores(v));
                            let kj = keyword_of(v);
                            assert(pre.has(kj));
                            assert(kj != k);
                        },
                        _ => {},
                    }
                }
            }
            assert forall|j: int| 0 <= j < i + 1 implies entry_built(node, #[trigger] all[j]) by {
                if j < i {
                    assert(entry_built(pre, all[j]));
                    match all[j].value {
                        EntryValue::Items(_) => assert(pre.has(JsonSchemaKeywords::Items)),
                        EntryValue::Contains(_) => assert(pre.has(JsonSchemaKeywords::Contains)),
                        EntryValue::Properties(_) => assert(pre.has(JsonSchemaKeywords::Properties)),
                        _ => {},
                    }
                }
            }
        }
        i = i + 1;
    }
    Ok(node)
}

/// Compiles a root block: its schema sits at depth 1, and the result is the
/// first failure met or the schema holding exactly what the entries set.
pub fn compile(entries: Vec<Entry>) -> (r: Result<JsonSchema, CompileError>)
    requires
        block_fits(entries, entries.len() as int, 1),
    ensures
        match run(entries, entries.len() as int) {
            Err(x) => r == Err::<JsonSchema, CompileError>(x),
            Ok(rec) => r is Ok && r->Ok_0.wf() && r->Ok_0.depth == 1 && holds_record(
                r->Ok_0,
                rec,
            ) && compiled_from(r->Ok_0, entries),
        },
{
    compile_block(entries, 1)
}

/// Compiles the blocks under `properties` at `depth`, in order, stopping at
/// the first failure; a name given twice keeps the later schema.
pub fn compile_properties(ps: Vec<PropertyEntry>, depth: usize) -> (r: Result<
    Vec<Property>,
    CompileError,
>)
    requires
        depth >= 1,
        property_blocks_fit(ps, ps.len() as int, depth as int),
    ensures
        match properties_error(ps, ps.len() as int) {
            Some(x) => r == Err::<Vec<Property>, CompileError>(x),
            None => r is Ok && properties_fit(r->Ok_0@, depth as int) && properties_built(
                r->Ok_0@,
                ps,
                ps.len() as int,
            ),
        },
    decreases ps,
{
    let ghost all = ps;
    let n = ps.len();
    let mut rest = ps;
    let mut out: Vec<Property> = Vec::new();
    let mut i: usize = 0;
    proof {
        }
    while i < n
        invariant
            all == ps,
            all.len() == n,
            0 <= i <= n,
            rest@ == all@.subrange(i as int, n as int),
            depth >= 1,
            property_blocks_fit(all, n as int, depth as int),
            properties_error(all, i as int) is None,
            properties_fit(out@, depth as int),
            properties_built(out@, all, i as int),
        decreases n - i,
    {
        assert(rest@[0] == all@[i as int]);
        let pe = rest.remove(0);
        let ghost pg = pe;
        proof {
            lemma_properties_fit(all, n as int, i as int, depth as int);
            assert(decreases_to!(all => all[i as int]));
            assert(decreases_to!(pg => pg.entries));
            assert(properties_error(all, i + 1) == block_error(pg.entries));
        }
        match compile_block(pe.entries, depth) {
            Err(x) => {
                proof {
                    lemma_properties_error_stays(all, i + 1, n as int);
                }
                return Err(x);
            },
            Ok(schema) => {
                let mut j: usize = 0;
                while j < out.len()
                    invariant
                        0 <= j <= out.len(),
                        forall|m: int| 0 <= m < j ==> (#[trigger] out@[m]).name@ != pe.name@,
                    ensures
                        0 <= j <= out.len(),
                        forall|m: int| 0 <= m < j ==> (#[trigger] out@[m]).name@ != pe.name@,
                        j < out.len() ==> out@[j as int].name@ == pe.name@,
                    decreases out.len() - j,
                {
                    if out[j].name == pe.name {
                        break;
                    }
                    j = j + 1;
                }
                let ghost before = out@;
                if j < out.len() {
                    out.remove(j);
                    proof {
                        assert forall|m: int| 0 <= m < out@.len() implies (#[trigger] out@[m]).name@
                            != pe.name@ by {
                            if m >= j {
                                assert(out@[m] == before[m + 1]);
                                assert(before[j as int].name@ == pe.name@);
                            }
                        }
                        assert forall|a: int, b: int|
                            0 <= a < b < out@.len() implies (#[trigger] out@[a]).name@ != (
                        #[trigger] out@[b]).name@ by {
                            let a1 = if a < j {
                                a
                            } else {
                                a + 1
                            };
                            let b1 = if b < j {
                                b
                            } else {
                                b + 1
                            };
                            assert(out@[a] == before[a1]);
                            assert(out@[b] == before[b1]);
                        }
                        assert forall|m: int| 0 <= m < out@.len() implies (#[trigger] out@[m]).schema.wf()
                            && out@[m].schema.depth == depth by {
                            let m1 = if m < j {
                                m
                            } else {
                                m + 1
                            };
                            assert(out@[m] == before[m1]);
                        }
                    }
                }
                let ghost mid = out@;
                let ghost found = j < before.len();
                proof {
                    assert(forall|m: int| 0 <= m < mid.len() ==> (#[trigger] mid[m]).name@ != pg.name@);
                    assert forall|m: int| 0 <= m < mid.len() implies #[trigger] mid[m] == before[if found && m >= j {
                        m + 1
                    } else {
                        m
                    }] by {}
                }
                out.push(Property { name: pe.name, schema });
                proof {
                    assert(out@ == mid.push(out@[mid.len() as int]));
                    lemma_properties_step(all, i as int, before, mid, out@, found, j as int);
                    assert forall|a: int, b: int|
                        0 <= a < b < out@.len() implies (#[trigger] out@[a]).name@ != (
                    #[trigger] out@[b]).name@ by {
                        if b < mid.len() {
                            assert(out@[a] == mid[a]);
                            assert(out@[b] == mid[b]);
                        } else {
                            assert(out@[a] == mid[a]);
                        }
                    }
                }
            },
        }
        i = i + 1;
    }
    Ok(out)
}

} // verus!
