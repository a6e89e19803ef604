//! Edge cases and error behaviour: selection order, missing fields, the
//! entries transformation, scalars, and the three fatal error kinds.

use gqlog::FilterError;
use gqlog::Filters;
use gqlog::Json;
use gqlog::ast::ArgValue;
use gqlog::ast::FieldNode;
use gqlog::ast::QueryDefinition;
use gqlog::ast::QueryDoc;
use gqlog::ast::Selection;
use gqlog::ast::SelectionList;
use gqlog::filters::get_filters;
use gqlog::filters::get_selection;

fn decode(s: &str) -> serde_json::Value {
    serde_json::from_str(s).unwrap()
}

#[test]
fn key_order_follows_selection() {
    let out = gqlog::filter_value("{ foo baz }", decode(r#"{"baz":1,"foo":2}"#)).unwrap();
    assert_eq!(out.to_string(), r#"{"foo":2,"baz":1}"#);
}

#[test]
fn missing_field_is_omitted() {
    let out = gqlog::filter_value("{ foo }", decode(r#"{"baz":"buz"}"#)).unwrap();
    assert_eq!(out.to_string(), r#"{}"#);
}

#[test]
fn empty_selection_pass_is_idempotent() {
    let empty: Vec<Filters> = Vec::new();
    let value = Json::Array(vec![
        Json::Str("a".to_string()),
        Json::Object(vec![("k".to_string(), Json::Bool(true))]),
        Json::Array(vec![Json::Null]),
    ]);
    let once = gqlog::filters::filter_value(&empty, &value);
    let twice = gqlog::filters::filter_value(&empty, &once);
    assert_eq!(once, twice);
    assert_eq!(once.to_string(), r#"["a",{},[null]]"#);
}

#[test]
fn scalar_passes_through_any_selection() {
    let out = gqlog::filter_value("{ foo }", decode(r#""hello""#)).unwrap();
    assert_eq!(out, Json::Str("hello".to_string()));
    let out = gqlog::filter_value("{ foo }", decode("17")).unwrap();
    assert_eq!(out.to_string(), "17");
}

#[test]
fn array_under_bare_field_keeps_shape() {
    let out = gqlog::filter_value("{ foo }", decode(r#"{"foo":[1,2,3],"baz":0}"#)).unwrap();
    assert_eq!(out.to_string(), r#"{"foo":[1,2,3]}"#);
}

#[test]
fn unsupported_operation_compiles_to_empty_selection() {
    let out = gqlog::filter_value("mutation { foo }", decode(r#"{"foo":1}"#)).unwrap();
    assert_eq!(out.to_string(), r#"{}"#);
    let out = gqlog::filter_value("mutation { foo }", decode("5")).unwrap();
    assert_eq!(out.to_string(), "5");
    let out = gqlog::filter_value("fragment f on T { foo }", decode(r#"{"foo":1}"#)).unwrap();
    assert_eq!(out.to_string(), r#"{}"#);
}

#[test]
fn unknown_argument_is_a_semantic_error() {
    let r = gqlog::filter_value("{ foo(bogus: true) }", decode(r#"{"foo":1}"#));
    match r {
        Err(FilterError::QuerySemantic(e)) => {
            assert_eq!(e.argument, "bogus");
            assert_eq!(e.value, ArgValue::Boolean(true));
            assert_eq!(e.message(), "invalid argument bogus");
        },
        other => panic!("expected a semantic error, got {:?}", other),
    }
}

#[test]
fn non_boolean_entries_is_a_semantic_error() {
    let r = gqlog::filter_value("{ foo(entries: 1) }", decode(r#"{"foo":1}"#));
    match r {
        Err(FilterError::QuerySemantic(e)) => {
            assert_eq!(e.argument, "entries");
            assert_eq!(e.value, ArgValue::Other);
        },
        other => panic!("expected a semantic error, got {:?}", other),
    }
}

#[test]
fn entries_false_acts_like_a_bare_field() {
    let out = gqlog::filter_value("{ foo(entries: false) }", decode(r#"{"foo":7}"#)).unwrap();
    assert_eq!(out.to_string(), r#"{"foo":7}"#);
}

#[test]
fn entries_on_non_object_falls_back() {
    let out =
        gqlog::filter_value("{ foo(entries: true) }", decode(r#"{"foo":[1,2]}"#)).unwrap();
    assert_eq!(out.to_string(), r#"{"foo":[1,2]}"#);
}

#[test]
fn entries_keeps_scalar_values_and_key_order() {
    let out = gqlog::filter_value(
        "{ d(entries: true) { key value } }",
        decode(r#"{"d":{"x":5,"w":6}}"#),
    )
    .unwrap();
    assert_eq!(out.to_string(), r#"{"d":[{"key":"x","value":5},{"key":"w","value":6}]}"#);
}

#[test]
fn bad_query_is_a_syntax_error() {
    let r = gqlog::filter_value("{ foo", decode("1"));
    assert!(matches!(r, Err(FilterError::QuerySyntax(_))));
}

#[test]
fn bad_input_is_a_decode_error() {
    let r = gqlog::filter("{ foo }", "not json");
    assert!(matches!(r, Err(FilterError::InputDecode(_))));
}

#[test]
fn syntax_error_hides_decode_error() {
    let r = gqlog::filter("{ foo", "not json");
    assert!(matches!(r, Err(FilterError::QuerySyntax(_))));
}

#[test]
fn decode_error_hides_semantic_error() {
    let r = gqlog::filter("{ foo(bogus: true) }", "not json");
    assert!(matches!(r, Err(FilterError::InputDecode(_))));
}

#[test]
fn compile_once_apply_many() {
    let plan = gqlog::compile("{ foo }").unwrap();
    let a = gqlog::apply(&plan, decode(r#"{"foo":1,"baz":2}"#));
    let b = gqlog::apply(&plan, decode(r#"{"foo":"x"}"#));
    assert_eq!(a.to_string(), r#"{"foo":1}"#);
    assert_eq!(b.to_string(), r#"{"foo":"x"}"#);
}

#[test]
fn get_filters_compiles_fields_in_order() {
    let leaf = |name: &str| {
        Selection::Field(FieldNode {
            name: name.to_string(),
            arguments: Vec::new(),
            selection_set: SelectionList { items: Vec::new() },
        })
    };
    let sel = SelectionList { items: vec![leaf("foo"), leaf("baz")] };
    let fs = get_filters(&sel).unwrap();
    assert_eq!(fs, vec![Filters::Field("foo".to_string()), Filters::Field("baz".to_string())]);
}

#[test]
fn get_filters_builds_object_and_entries_nodes() {
    let leaf = Selection::Field(FieldNode {
        name: "inner".to_string(),
        arguments: Vec::new(),
        selection_set: SelectionList { items: Vec::new() },
    });
    let sel = SelectionList {
        items: vec![
            Selection::Field(FieldNode {
                name: "outer".to_string(),
                arguments: Vec::new(),
                selection_set: SelectionList { items: vec![leaf] },
            }),
            Selection::Field(FieldNode {
                name: "dict".to_string(),
                arguments: vec![("entries".to_string(), ArgValue::Boolean(true))],
                selection_set: SelectionList { items: Vec::new() },
            }),
            Selection::Fragment,
        ],
    };
    let fs = get_filters(&sel).unwrap();
    assert_eq!(
        fs,
        vec![
            Filters::Object(
                "outer".to_string(),
                vec![Filters::Field("inner".to_string())],
            ),
            Filters::Entries("dict".to_string(), Vec::new()),
        ]
    );
}

#[test]
fn get_selection_ignores_non_query_definitions() {
    let doc = QueryDoc { definitions: vec![QueryDefinition::Mutation] };
    assert_eq!(get_selection(&doc).unwrap(), Vec::<Filters>::new());
    let doc = QueryDoc { definitions: Vec::new() };
    assert_eq!(get_selection(&doc).unwrap(), Vec::<Filters>::new());
}

#[test]
fn get_selection_compiles_a_parsed_document() {
    let parsed = graphql_parser::parse_query("{ foo { bar } }").unwrap();
    let set = match parsed.definitions.into_iter().next().unwrap() {
        graphql_parser::query::Definition::Operation(
            graphql_parser::query::OperationDefinition::SelectionSet(s),
        ) => s,
        other => panic!("unexpected definition {:?}", other),
    };
    let doc = QueryDoc { definitions: vec![QueryDefinition::SelectionSet(set)] };
    let fs = get_selection(&doc).unwrap();
    assert_eq!(
        fs,
        vec![Filters::Object(
            "foo".to_string(),
            vec![Filters::Field("bar".to_string())],
        )]
    );
}

#[test]
fn rendering_collapses_a_repeated_key() {
    let value = Json::Object(vec![
        ("a".to_string(), Json::Str("first".to_string())),
        ("b".to_string(), Json::Null),
        ("a".to_string(), Json::Str("second".to_string())),
    ]);
    assert_eq!(value.to_string(), r#"{"a":"second","b":null}"#);
}
