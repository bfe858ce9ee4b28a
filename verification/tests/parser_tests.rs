use json_flatten::config::{ColumnMapping, Config, InputType, MappingType, Parameters, TableMapping};
use json_flatten::parser::{select_root, Parser, ProcessError};
use json_flatten::table::{render_row, Row};
use json_flatten::value::{format_value, Value};

fn base_config(root_node: &str) -> Config {
    Config {
        parameters: Parameters {
            mapping: Vec::new(),
            incremental: false,
            root_node: root_node.to_string(),
            in_type: InputType::Files,
            add_file_name: false,
        },
    }
}

fn table_lines(p: &Parser, table: &str) -> Vec<String> {
    let t = p.tables.get(table).expect("table should exist");
    let mut out = vec![t.headers.join(",")];
    for r in &t.rows {
        out.push(render_row(&t.headers, r).join(","));
    }
    out
}

#[test]
fn test_basic_json_conversion() {
    let json_content = r#"{
        "id": "1",
        "name": "Test",
        "items": [
            {"id": "item1", "value": 100},
            {"id": "item2", "value": 200}
        ]
    }"#;
    let mut p = Parser::new(base_config(""));
    p.process_str(json_content, "test.json").unwrap();

    let root = table_lines(&p, "root");
    assert!(root[0].contains("id,name"));
    assert!(root[1].contains("1,Test"));

    let items = table_lines(&p, "items");
    assert!(items[0].contains("id,value"));
    assert!(items[1].contains("item1,100"));
    assert!(items[2].contains("item2,200"));
}

#[test]
fn test_root_node_selection() {
    let json_content = r#"{
        "data": {
            "items": [
                {"id": "item1", "value": 100},
                {"id": "item2", "value": 200}
            ]
        }
    }"#;
    let mut p = Parser::new(base_config("data.items"));
    p.process_str(json_content, "test.json").unwrap();

    // the selected array is flattened as the root document itself
    let root = table_lines(&p, "root");
    assert!(root[0].contains("id,value"));
    assert!(root[1].contains("item1,100"));
    assert!(root[2].contains("item2,200"));
}

#[test]
fn process_str_rejects_malformed_json() {
    let mut p = Parser::new(base_config(""));
    let res = p.process_str("{ not json", "bad.json");
    assert!(matches!(res, Err(ProcessError::DocumentParse)));
    assert!(p.tables.entries.is_empty());
}

#[test]
fn process_str_renders_scalars_canonically() {
    let mut p = Parser::new(base_config(""));
    p.process_str(
        r#"{"n":100,"neg":-5,"frac":2.5,"yes":true,"no":false,"gone":null,"s":"txt"}"#,
        "",
    )
    .unwrap();
    let lines = table_lines(&p, "root");
    assert_eq!(lines[0], "n,neg,frac,yes,no,gone,s");
    assert_eq!(lines[1], "100,-5,2.5,true,false,,txt");
}

#[test]
fn format_value_canonical_forms() {
    assert_eq!(format_value(&Value::Null), "");
    assert_eq!(format_value(&Value::Bool(true)), "true");
    assert_eq!(format_value(&Value::Bool(false)), "false");
    assert_eq!(format_value(&Value::Number("42".to_string())), "42");
    assert_eq!(format_value(&Value::Str("abc".to_string())), "abc");
}

#[test]
fn select_root_follows_dotted_path() {
    let inner = Value::Str("found".to_string());
    let doc = Value::Object(vec![(
        "a".to_string(),
        Value::Object(vec![("b".to_string(), inner)]),
    )]);
    match select_root(&doc, "a.b") {
        Ok(Value::Str(s)) => assert_eq!(s, "found"),
        _ => panic!("expected the nested string"),
    }
    match select_root(&doc, "") {
        Ok(Value::Object(entries)) => assert_eq!(entries.len(), 1),
        _ => panic!("empty path should return the document"),
    }
    match select_root(&doc, "a.c") {
        Err(seg) => assert_eq!(seg, "c"),
        _ => panic!("expected the failing segment"),
    }
    match select_root(&doc, "a.b.c") {
        Err(seg) => assert_eq!(seg, "c"),
        _ => panic!("a scalar cannot be descended into"),
    }
}

#[test]
fn process_value_uses_configured_scope() {
    let mapping = vec![(
        "name".to_string(),
        MappingType::Column {
            mapping: ColumnMapping { destination: "title".to_string(), primary_key: true },
        },
    )];
    let mut p = Parser::new(Config {
        parameters: Parameters {
            mapping,
            incremental: false,
            root_node: String::new(),
            in_type: InputType::Tables,
            add_file_name: false,
        },
    });
    let doc = Value::Object(vec![("name".to_string(), Value::Str("First".to_string()))]);
    p.process_value(&doc, "root", None, "");
    let lines = table_lines(&p, "root");
    assert_eq!(lines[0], "title");
    assert_eq!(lines[1], "First");
    let t = p.tables.get("root").unwrap();
    assert_eq!(t.primary_keys, vec!["title".to_string()]);
}

#[test]
fn process_table_mapping_flattens_into_destination() {
    let tm = TableMapping {
        destination: "order_items".to_string(),
        parent_key: None,
        table_mapping: vec![(
            "id".to_string(),
            MappingType::Column {
                mapping: ColumnMapping { destination: "item_id".to_string(), primary_key: false },
            },
        )],
    };
    let mut p = Parser::new(base_config(""));
    let arr = Value::Array(vec![Value::Object(vec![(
        "id".to_string(),
        Value::Str("A".to_string()),
    )])]);
    p.process_table_mapping(&arr, &tm, "");
    let lines = table_lines(&p, "order_items");
    assert_eq!(lines[0], "item_id,JSON_parentId");
    assert_eq!(lines[1], "A,order_items_0");
}

#[test]
fn render_row_defaults_missing_columns_to_empty() {
    let mut row = Row::new();
    row.set("b".to_string(), "2".to_string());
    let headers = vec!["a".to_string(), "b".to_string(), "c".to_string()];
    assert_eq!(
        render_row(&headers, &row),
        vec!["".to_string(), "2".to_string(), "".to_string()]
    );
}

#[test]
fn row_set_replaces_existing_binding() {
    let mut row = Row::new();
    row.set("a".to_string(), "1".to_string());
    row.set("a".to_string(), "2".to_string());
    let headers = vec!["a".to_string()];
    assert_eq!(render_row(&headers, &row), vec!["2".to_string()]);
    assert_eq!(row.cols.len(), 1);
}

fn wrapped_doc() -> Value {
    Value::Object(vec![(
        "data".to_string(),
        Value::Object(vec![("id".to_string(), Value::Str("1".to_string()))]),
    )])
}

#[test]
fn failures_are_isolated_per_document() {
    let bad = Value::Object(vec![("other".to_string(), Value::Str("x".to_string()))]);
    let docs = vec![
        (wrapped_doc(), "good.json".to_string()),
        (bad, "bad.json".to_string()),
        (wrapped_doc(), "again.json".to_string()),
    ];
    let mut p = Parser::new(base_config("data"));
    let failures = p.process_documents(&docs);
    assert_eq!(failures, 1);
    let t = p.tables.get("root").unwrap();
    assert_eq!(t.rows.len(), 2);
}
