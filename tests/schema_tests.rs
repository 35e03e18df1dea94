use json_schema_def::catalog::{Formats, JsonSchemaKeywords, JsonSchemaTypes, Span};
use json_schema_def::compiler::{compile, Entry, EntryValue, PropertyEntry};
use json_schema_def::document::{JsonOut, Member};
use json_schema_def::schema::{ChildValue, CompileError, JsonSchema, KeywordValue};
use json_schema_def::values::JsonSchemaValues;

fn sp(start: usize, end: usize) -> Span {
    Span { start, end }
}

fn entry(value: EntryValue, at: usize) -> Entry {
    Entry { value, keyword_span: sp(at, at + 4), value_span: sp(at + 6, at + 10) }
}

fn members(o: &JsonOut) -> &Vec<Member> {
    match o {
        JsonOut::Object(m) => m,
        _ => panic!("not an object"),
    }
}

fn keys(o: &JsonOut) -> Vec<String> {
    members(o).iter().map(|m| m.key.clone()).collect()
}

fn get<'a>(o: &'a JsonOut, key: &str) -> &'a JsonOut {
    &members(o).iter().find(|m| m.key == key).expect("missing key").value
}

fn text(o: &JsonOut) -> &str {
    match o {
        JsonOut::Str(s) => s,
        _ => panic!("not a string"),
    }
}

#[test]
fn string_block_round_trip() {
    let entries = vec![
        entry(EntryValue::Type(JsonSchemaTypes::String), 0),
        entry(EntryValue::Literal(KeywordValue::MinLength(2)), 20),
        entry(EntryValue::Literal(KeywordValue::MaxLenght(10)), 40),
        entry(EntryValue::Literal(KeywordValue::Format(Formats::Email)), 60),
    ];
    let node = compile(entries).unwrap();
    assert_eq!(node.depth, 1);
    let doc = node.serialize();
    assert_eq!(keys(&doc), vec!["type", "minLength", "maxLength", "format"]);
    assert_eq!(text(get(&doc, "type")), "string");
    assert!(matches!(get(&doc, "minLength"), JsonOut::Number(2)));
    assert!(matches!(get(&doc, "maxLength"), JsonOut::Number(10)));
    assert_eq!(text(get(&doc, "format")), "email");
}

#[test]
fn minimum_rejected_on_string() {
    let entries = vec![
        entry(EntryValue::Type(JsonSchemaTypes::String), 0),
        entry(EntryValue::Literal(KeywordValue::Minimum(1)), 20),
    ];
    let err = compile(entries).unwrap_err();
    assert_eq!(
        err,
        CompileError::IllegalKeywordForType(JsonSchemaKeywords::Minimum, JsonSchemaTypes::String, sp(20, 24))
    );
}

#[test]
fn nested_object_property() {
    let x = PropertyEntry {
        name: "x".to_string(),
        entries: vec![entry(EntryValue::Type(JsonSchemaTypes::Number), 100)],
    };
    let entries = vec![
        entry(EntryValue::Type(JsonSchemaTypes::Object), 0),
        entry(EntryValue::Properties(vec![x]), 20),
        entry(EntryValue::Literal(KeywordValue::Required(vec!["x".to_string()])), 40),
    ];
    let node = compile(entries).unwrap();
    let ps = node.properties.as_ref().unwrap();
    assert_eq!(ps.len(), 1);
    assert_eq!(ps[0].name, "x");
    assert_eq!(ps[0].schema.ty, JsonSchemaTypes::Number);
    assert_eq!(ps[0].schema.depth, 2);
    let doc = node.serialize();
    assert_eq!(keys(&doc), vec!["type", "properties", "required"]);
    let x_doc = get(get(&doc, "properties"), "x");
    assert_eq!(text(get(x_doc, "type")), "number");
    match get(&doc, "required") {
        JsonOut::Array(a) => {
            assert_eq!(a.len(), 1);
            assert_eq!(text(&a[0]), "x");
        }
        _ => panic!("required is not an array"),
    }
}

#[test]
fn enum_members_render_by_kind() {
    let values = vec![
        JsonSchemaValues::Str("red".to_string()),
        JsonSchemaValues::Number(7),
        JsonSchemaValues::Bool(true),
    ];
    let rendered: Vec<String> = values.iter().map(|v| v.render()).collect();
    assert_eq!(rendered, vec!["red", "7", "true"]);
    assert_eq!(JsonSchemaValues::Array(values).render(), "[red, 7, true]");
}

#[test]
fn render_each_literal_kind() {
    assert_eq!(JsonSchemaValues::Ident("LIMIT".to_string()).render(), "LIMIT");
    assert_eq!(JsonSchemaValues::Number(-42).render(), "-42");
    assert_eq!(JsonSchemaValues::Number(0).render(), "0");
    assert_eq!(JsonSchemaValues::Bool(false).render(), "false");
    assert_eq!(JsonSchemaValues::Char('q').render(), "q");
    assert_eq!(JsonSchemaValues::Array(vec![]).render(), "[]");
    let nested = JsonSchemaValues::Array(vec![
        JsonSchemaValues::Array(vec![JsonSchemaValues::Number(1)]),
        JsonSchemaValues::Char('z'),
    ]);
    assert_eq!(nested.render(), "[[1], z]");
}

#[test]
fn get_str_only_for_strings() {
    let s = JsonSchemaValues::Str("abc".to_string());
    assert_eq!(s.get_str().map(|x| x.as_str()), Some("abc"));
    assert!(JsonSchemaValues::Ident("abc".to_string()).get_str().is_none());
    assert!(JsonSchemaValues::Number(3).get_str().is_none());
}

#[test]
fn depth_grows_over_three_levels() {
    let inner = vec![entry(EntryValue::Type(JsonSchemaTypes::String), 200)];
    let middle = vec![
        entry(EntryValue::Type(JsonSchemaTypes::Array), 100),
        entry(EntryValue::Items(inner), 120),
    ];
    let entries = vec![
        entry(EntryValue::Type(JsonSchemaTypes::Object), 0),
        entry(
            EntryValue::Properties(vec![PropertyEntry { name: "list".to_string(), entries: middle }]),
            20,
        ),
    ];
    let root = compile(entries).unwrap();
    assert_eq!(root.depth, 1);
    let list = &root.properties.as_ref().unwrap()[0].schema;
    assert_eq!(list.depth, 2);
    let item = list.items.as_ref().unwrap();
    assert_eq!(item.depth, 3);
    assert_eq!(item.ty, JsonSchemaTypes::String);
}

#[test]
fn legal_keywords_accepted_per_type() {
    let cases: Vec<(JsonSchemaTypes, KeywordValue, &str)> = vec![
        (JsonSchemaTypes::Object, KeywordValue::Required(vec![]), "required"),
        (JsonSchemaTypes::String, KeywordValue::Pattern("^a".to_string()), "pattern"),
        (JsonSchemaTypes::Number, KeywordValue::Maximum(9), "maximum"),
        (JsonSchemaTypes::Array, KeywordValue::MinItems(1), "minItems"),
        (JsonSchemaTypes::Array, KeywordValue::UniqueItems(true), "uniqueItems"),
        (JsonSchemaTypes::Unset, KeywordValue::Title("t".to_string()), "title"),
        (JsonSchemaTypes::Number, KeywordValue::Const(JsonSchemaValues::Number(3)), "const"),
    ];
    for (ty, value, key) in cases {
        let mut node = JsonSchema::new();
        node.set_type(ty, sp(0, 4), sp(6, 10)).unwrap();
        node.set_keyword(value, sp(20, 24), sp(26, 30)).unwrap();
        let doc = node.serialize();
        assert_eq!(keys(&doc), vec!["type".to_string(), key.to_string()]);
    }
}

#[test]
fn illegal_keyword_leaves_node_unchanged() {
    let mut node = JsonSchema::new();
    node.set_type(JsonSchemaTypes::Number, sp(0, 4), sp(6, 10)).unwrap();
    let err = node.set_keyword(KeywordValue::MinLength(3), sp(20, 29), sp(31, 32)).unwrap_err();
    assert_eq!(
        err,
        CompileError::IllegalKeywordForType(JsonSchemaKeywords::MinLength, JsonSchemaTypes::Number, sp(20, 29))
    );
    assert!(node.min_length.is_none());
    assert!(node.min_length_span.is_none());
    assert_eq!(keys(&node.serialize()), vec!["type"]);
}

#[test]
fn type_specific_keyword_before_type_fails() {
    let entries = vec![
        entry(EntryValue::Literal(KeywordValue::Minimum(1)), 0),
        entry(EntryValue::Type(JsonSchemaTypes::Number), 20),
    ];
    assert_eq!(
        compile(entries).unwrap_err(),
        CompileError::IllegalKeywordForType(JsonSchemaKeywords::Minimum, JsonSchemaTypes::Unset, sp(0, 4))
    );
}

#[test]
fn child_on_wrong_type_fails() {
    let mut node = JsonSchema::new();
    node.set_type(JsonSchemaTypes::String, sp(0, 4), sp(6, 10)).unwrap();
    let child = JsonSchema::with_depth(2);
    let err = node.add_child(ChildValue::Items(Box::new(child)), sp(20, 25), sp(27, 40)).unwrap_err();
    assert_eq!(
        err,
        CompileError::IllegalKeywordForType(JsonSchemaKeywords::Items, JsonSchemaTypes::String, sp(20, 25))
    );
    assert!(node.items.is_none());
}

#[test]
fn keyword_twice_is_duplicate() {
    let entries = vec![
        entry(EntryValue::Literal(KeywordValue::Title("a".to_string())), 0),
        entry(EntryValue::Literal(KeywordValue::Title("b".to_string())), 20),
    ];
    assert_eq!(
        compile(entries).unwrap_err(),
        CompileError::DuplicateKeyword(JsonSchemaKeywords::Title, sp(0, 4), sp(20, 24))
    );
}

#[test]
fn type_twice_is_duplicate() {
    let mut node = JsonSchema::new();
    node.set_type(JsonSchemaTypes::Array, sp(0, 4), sp(6, 11)).unwrap();
    let err = node.set_type(JsonSchemaTypes::Array, sp(30, 34), sp(36, 41)).unwrap_err();
    assert_eq!(err, CompileError::DuplicateKeyword(JsonSchemaKeywords::Type, sp(0, 4), sp(30, 34)));
    assert_eq!(node.ty_span, Some((sp(0, 4), sp(6, 11))));
}

#[test]
fn nested_block_error_comes_out() {
    let inner = vec![
        entry(EntryValue::Type(JsonSchemaTypes::Number), 100),
        entry(EntryValue::Literal(KeywordValue::Pattern("x".to_string())), 120),
    ];
    let entries = vec![
        entry(EntryValue::Type(JsonSchemaTypes::Array), 0),
        entry(EntryValue::Contains(inner), 20),
    ];
    assert_eq!(
        compile(entries).unwrap_err(),
        CompileError::IllegalKeywordForType(JsonSchemaKeywords::Pattern, JsonSchemaTypes::Number, sp(120, 124))
    );
}

#[test]
fn unset_fields_are_omitted() {
    let node = JsonSchema::new();
    let doc = node.serialize();
    assert_eq!(keys(&doc), vec!["type"]);
    assert_eq!(text(get(&doc, "type")), "null");
}

#[test]
fn generic_keywords_render_with_renamed_keys() {
    let entries = vec![
        entry(EntryValue::Type(JsonSchemaTypes::String), 0),
        entry(EntryValue::Literal(KeywordValue::Description("d".to_string())), 10),
        entry(EntryValue::Literal(KeywordValue::Default(JsonSchemaValues::Ident("DEF".to_string()))), 20),
        entry(EntryValue::Literal(KeywordValue::Examples(vec!["e1".to_string()])), 30),
        entry(
            EntryValue::Literal(KeywordValue::Enum(vec![
                JsonSchemaValues::Char('c'),
                JsonSchemaValues::Number(-5),
            ])),
            40,
        ),
        entry(EntryValue::Literal(KeywordValue::Const(JsonSchemaValues::Bool(false))), 50),
    ];
    let doc = compile(entries).unwrap().serialize();
    assert_eq!(keys(&doc), vec!["type", "description", "default", "examples", "enum", "const"]);
    assert_eq!(text(get(&doc, "default")), "DEF");
    match get(&doc, "enum") {
        JsonOut::Array(a) => {
            assert_eq!(text(&a[0]), "c");
            assert!(matches!(a[1], JsonOut::Number(-5)));
        }
        _ => panic!("enum is not an array"),
    }
    assert!(matches!(get(&doc, "const"), JsonOut::Bool(false)));
}

#[test]
fn repeated_property_name_keeps_later() {
    let a = PropertyEntry { name: "p".to_string(), entries: vec![entry(EntryValue::Type(JsonSchemaTypes::String), 100)] };
    let b = PropertyEntry { name: "p".to_string(), entries: vec![entry(EntryValue::Type(JsonSchemaTypes::Number), 200)] };
    let entries = vec![
        entry(EntryValue::Type(JsonSchemaTypes::Object), 0),
        entry(EntryValue::Properties(vec![a, b]), 20),
    ];
    let node = compile(entries).unwrap();
    let ps = node.properties.as_ref().unwrap();
    assert_eq!(ps.len(), 1);
    assert_eq!(ps[0].schema.ty, JsonSchemaTypes::Number);
}

#[test]
fn missing_type_reported() {
    let node = JsonSchema::new();
    assert_eq!(node.require_type(sp(3, 9)), Err(CompileError::MissingType(sp(3, 9))));
    let mut typed = JsonSchema::new();
    typed.set_type(JsonSchemaTypes::Object, sp(0, 4), sp(6, 12)).unwrap();
    assert_eq!(typed.require_type(sp(3, 9)), Ok(()));
}

#[test]
fn canonical_spellings() {
    assert_eq!(JsonSchemaTypes::Object.as_str(), "object");
    assert_eq!(JsonSchemaTypes::Unset.as_str(), "null");
    assert!(JsonSchemaTypes::Unset.is_none());
    assert!(!JsonSchemaTypes::Array.is_none());
    assert_eq!(JsonSchemaTypes::default(), JsonSchemaTypes::Unset);
    assert_eq!(Formats::DateTime.as_str(), "date-time");
    assert_eq!(Formats::Ipv6.as_str(), "ipv6");
    assert_eq!(JsonSchemaKeywords::MaxLenght.as_str(), "maxLength");
    assert_eq!(JsonSchemaKeywords::Enum.as_str(), "enum");
    assert!(JsonSchemaKeywords::Contains.is_legal_for(JsonSchemaTypes::Array));
    assert!(!JsonSchemaKeywords::Contains.is_legal_for(JsonSchemaTypes::Object));
    assert!(JsonSchemaKeywords::Examples.is_legal_for(JsonSchemaTypes::Unset));
}

#[test]
fn array_children_serialize_nested() {
    let entries = vec![
        entry(EntryValue::Type(JsonSchemaTypes::Array), 0),
        entry(EntryValue::Items(vec![entry(EntryValue::Type(JsonSchemaTypes::Number), 100)]), 20),
        entry(EntryValue::Literal(KeywordValue::MaxItems(4)), 40),
        entry(EntryValue::Literal(KeywordValue::UniqueItems(true)), 60),
        entry(
            EntryValue::Contains(vec![
                entry(EntryValue::Type(JsonSchemaTypes::String), 200),
                entry(EntryValue::Literal(KeywordValue::Format(Formats::DateTime)), 220),
            ]),
            80,
        ),
    ];
    let node = compile(entries).unwrap();
    assert_eq!(node.contains.as_ref().unwrap().depth, 2);
    let doc = node.serialize();
    assert_eq!(keys(&doc), vec!["type", "items", "maxItems", "uniqueItems", "contains"]);
    assert_eq!(text(get(get(&doc, "items"), "type")), "number");
    assert!(matches!(get(&doc, "maxItems"), JsonOut::Number(4)));
    assert!(matches!(get(&doc, "uniqueItems"), JsonOut::Bool(true)));
    assert_eq!(text(get(get(&doc, "contains"), "format")), "date-time");
}
