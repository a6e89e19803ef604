//! The filter seen from outside: query text in, JSON text or decoded value
//! in, filtered value out.

fn decode(s: &str) -> serde_json::Value {
    serde_json::from_str(s).unwrap()
}

#[test]
fn filter_value() {
    let query = String::from("{ foo }");
    let data = decode(
        r#"{
            "foo": "bar",
            "baz": "buz"
        }"#,
    );

    let expect = r#"{"foo":"bar"}"#;

    assert_eq!(gqlog::filter_value(&query, data).unwrap().to_string(), expect);
}

#[test]
fn filter() {
    let query = String::from("{ foo }");
    let data = String::from(
        r#"{
            "foo": "bar",
            "baz": "buz"
        }"#,
    );

    let expect = r#"{"foo":"bar"}"#;

    assert_eq!(gqlog::filter(&query, &data).unwrap().to_string(), expect);
}

#[test]
fn nested_objects() {
    let query = String::from("{ nested { foo } }");
    let data = decode(
        r#"{
            "nested": {
                "foo": "bar",
                "baz": "buz"
            }
        }"#,
    );

    let expect = r#"{"nested":{"foo":"bar"}}"#;

    assert_eq!(gqlog::filter_value(&query, data).unwrap().to_string(), expect);
}

#[test]
fn nested_arrays() {
    let query = String::from("{ nested { foo } }");
    let data = decode(
        r#"{
            "nested": [
                {
                    "foo": "bar",
                    "baz": "buz"
                },
                {
                    "foo": "bar",
                    "baz": "buz"
                }
            ]
        }"#,
    );

    let expect = r#"{"nested":[{"foo":"bar"},{"foo":"bar"}]}"#;

    assert_eq!(gqlog::filter_value(&query, data).unwrap().to_string(), expect);
}

#[test]
fn dictionary() {
    let query = String::from("{ dict(entries: true) { value { name } } }");
    let data = decode(
        r#"{
            "dict": {
                "item1": {"name": "item one"},
                "item2": {"name": "item two"}
            }
        }"#,
    );

    let expect = r#"{"dict":[{"value":{"name":"item one"}},{"value":{"name":"item two"}}]}"#;

    assert_eq!(gqlog::filter_value(&query, data).unwrap().to_string(), expect);
}
