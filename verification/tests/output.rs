use slack_cli::cli::OutputFormat;
use slack_cli::json::{Json, JsonNumber};
use slack_cli::output::{delimited_string, ids_string, json_string, render_text, table_string, yaml_string};

fn s(v: &str) -> Json {
    Json::Str(v.to_string())
}

fn obj(fields: Vec<(&str, Json)>) -> Json {
    Json::Object(fields.into_iter().map(|(k, v)| (k.to_string(), v)).collect())
}

#[test]
fn compact_json_escapes_quotes_and_controls() {
    let v = obj(vec![
        ("a", s("x\"y\n\u{1}")),
        ("b", Json::Array(vec![Json::Number(JsonNumber::UInt(1)), Json::Number(JsonNumber::Int(-2)), Json::Bool(true), Json::Null])),
    ]);
    assert_eq!(json_string(&v), "{\"a\":\"x\\\"y\\n\\u0001\",\"b\":[1,-2,true,null]}");
    assert_eq!(json_string(&Json::Array(vec![])), "[]");
}

#[test]
fn csv_quotes_fields_that_need_it_and_keeps_column_order() {
    let rows = Json::Array(vec![
        obj(vec![("id", s("C1")), ("name", s("a,b"))]),
        obj(vec![("id", s("C2")), ("note", s("q\"t"))]),
    ]);
    assert_eq!(delimited_string(&rows, false), "id,name,note\nC1,\"a,b\",\nC2,,\"q\"\"t\"\n");
    assert_eq!(delimited_string(&obj(vec![("x", s("a\tb"))]), true), "x\na b\n");
    assert_eq!(delimited_string(&Json::Array(vec![s("plain"), Json::Null]), false), "plain\n\n");
}

#[test]
fn id_only_prints_the_identifier_of_each_record() {
    let rows = Json::Array(vec![
        obj(vec![("id", s("C1"))]),
        obj(vec![("channelId", s("C2"))]),
        obj(vec![("ts", s("1.2"))]),
        obj(vec![("x", Json::Number(JsonNumber::UInt(1)))]),
    ]);
    assert_eq!(ids_string(&rows), "C1\nC2\n1.2\n");
}

#[test]
fn tables_pad_columns_to_their_widest_cell() {
    let rows = Json::Array(vec![
        obj(vec![("id", s("C1")), ("name", s("general"))]),
        obj(vec![("id", s("C22")), ("name", s("x"))]),
    ]);
    assert_eq!(table_string(&rows), "id   name\n---  -------\nC1   general\nC22  x\n");
    let single = obj(vec![("id", s("C1")), ("longer", s("v"))]);
    assert_eq!(table_string(&single), "id      C1\nlonger  v\n");
    let wide = "x".repeat(70);
    let cell = table_string(&obj(vec![("k", s(&wide))]));
    assert_eq!(cell, format!("k  {}...\n", "x".repeat(57)));
}

#[test]
fn yaml_nests_lists_and_objects_below_their_key() {
    let v = obj(vec![
        ("a", Json::Number(JsonNumber::UInt(1))),
        ("b", Json::Array(vec![Json::Number(JsonNumber::UInt(1)), obj(vec![("c", s("d"))])])),
        ("e", obj(vec![])),
    ]);
    assert_eq!(yaml_string(&v), "\"a\": 1\n\"b\":\n  - 1\n  -\n    \"c\": \"d\"\n\"e\": {}\n");
}

#[test]
fn json_is_left_to_the_printer() {
    assert!(render_text(&Json::Null, OutputFormat::Json).is_none());
    assert_eq!(render_text(&Json::Null, OutputFormat::Table).as_deref(), Some("\n"));
}
