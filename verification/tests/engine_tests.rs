use json_flatten::config::{ColumnMapping, Config, InputType, MappingType, Parameters, TableMapping};
use json_flatten::parser::{Parser, ProcessError};
use json_flatten::table::render_row;
use json_flatten::value::Value;

fn sv(x: &str) -> Value {
    Value::Str(x.to_string())
}

fn nv(x: &str) -> Value {
    Value::Number(x.to_string())
}

fn obj(fields: Vec<(&str, Value)>) -> Value {
    Value::Object(fields.into_iter().map(|(k, v)| (k.to_string(), v)).collect())
}

fn config_with(
    mapping: Vec<(String, MappingType)>,
    root_node: &str,
    add_file_name: bool,
) -> Config {
    Config {
        parameters: Parameters {
            mapping,
            incremental: false,
            root_node: root_node.to_string(),
            in_type: InputType::Files,
            add_file_name,
        },
    }
}

fn plain_config() -> Config {
    config_with(Vec::new(), "", false)
}

fn rendered(p: &Parser, table: &str) -> (Vec<String>, Vec<Vec<String>>) {
    let t = p.tables.get(table).expect("table should exist");
    let rows = t.rows.iter().map(|r| render_row(&t.headers, r)).collect();
    (t.headers.clone(), rows)
}

#[test]
fn scalar_pass_through() {
    let mut p = Parser::new(plain_config());
    let doc = obj(vec![("id", sv("1")), ("name", sv("Test"))]);
    p.process_document(&doc, "test.json").unwrap();
    let (headers, rows) = rendered(&p, "root");
    assert_eq!(headers, vec!["id".to_string(), "name".to_string()]);
    assert_eq!(rows, vec![vec!["1".to_string(), "Test".to_string()]]);
}

#[test]
fn implicit_child_relation() {
    let mut p = Parser::new(plain_config());
    let doc = obj(vec![
        ("id", sv("1")),
        (
            "items",
            Value::Array(vec![
                obj(vec![("id", sv("A")), ("quantity", sv("10"))]),
                obj(vec![("id", sv("B")), ("quantity", sv("20"))]),
            ]),
        ),
    ]);
    p.process_document(&doc, "").unwrap();
    let (headers, rows) = rendered(&p, "items");
    assert_eq!(
        headers,
        vec!["id".to_string(), "quantity".to_string(), "JSON_parentId".to_string()]
    );
    assert_eq!(
        rows,
        vec![
            vec!["A".to_string(), "10".to_string(), "items_0".to_string()],
            vec!["B".to_string(), "20".to_string(), "items_1".to_string()],
        ]
    );
    let (root_headers, root_rows) = rendered(&p, "root");
    assert_eq!(root_headers, vec!["id".to_string()]);
    assert_eq!(root_rows, vec![vec!["1".to_string()]]);
}

#[test]
fn root_path_selection_equivalence() {
    let mut selected = Parser::new(config_with(Vec::new(), "data.items", false));
    let wrapped = obj(vec![(
        "data",
        obj(vec![("items", Value::Array(vec![obj(vec![("id", sv("x"))])]))]),
    )]);
    selected.process_document(&wrapped, "").unwrap();

    let mut direct = Parser::new(plain_config());
    let bare = Value::Array(vec![obj(vec![("id", sv("x"))])]);
    direct.process_document(&bare, "").unwrap();

    let (h1, r1) = rendered(&selected, "root");
    let (h2, r2) = rendered(&direct, "root");
    assert_eq!(h1, h2);
    assert_eq!(r1, r2);
    assert_eq!(h1, vec!["id".to_string(), "JSON_parentId".to_string()]);
    assert_eq!(r1, vec![vec!["x".to_string(), "root_0".to_string()]]);
}

#[test]
fn root_path_not_found_contributes_nothing() {
    let mut p = Parser::new(config_with(Vec::new(), "data.missing", false));
    let doc = obj(vec![("data", obj(vec![("present", sv("1"))]))]);
    let res = p.process_document(&doc, "");
    match res {
        Err(ProcessError::RootNotFound(seg)) => assert_eq!(seg, "missing"),
        _ => panic!("expected RootNotFound"),
    }
    assert!(p.tables.entries.is_empty());
}

#[test]
fn header_stability_two_runs_identical() {
    let docs = vec![
        (obj(vec![("a", nv("1"))]), "one.json".to_string()),
        (
            obj(vec![
                ("a", nv("1")),
                ("b", nv("2")),
                ("items", Value::Array(vec![obj(vec![("id", sv("A"))])])),
            ]),
            "two.json".to_string(),
        ),
    ];
    let serialize = |p: &Parser| -> Vec<String> {
        let mut out = Vec::new();
        for (name, t) in &p.tables.entries {
            out.push(name.clone());
            out.push(t.headers.join(","));
            for r in &t.rows {
                out.push(render_row(&t.headers, r).join(","));
            }
        }
        out
    };
    let mut p1 = Parser::new(plain_config());
    assert_eq!(p1.process_documents(&docs), 0);
    let mut p2 = Parser::new(plain_config());
    assert_eq!(p2.process_documents(&docs), 0);
    assert_eq!(serialize(&p1), serialize(&p2));
}

#[test]
fn schema_accretion_renders_missing_as_empty() {
    let mut p = Parser::new(plain_config());
    p.process_document(&obj(vec![("a", nv("1"))]), "").unwrap();
    p.process_document(&obj(vec![("a", nv("1")), ("b", nv("2"))]), "").unwrap();
    let (headers, rows) = rendered(&p, "root");
    assert_eq!(headers, vec!["a".to_string(), "b".to_string()]);
    assert_eq!(
        rows,
        vec![
            vec!["1".to_string(), "".to_string()],
            vec!["1".to_string(), "2".to_string()],
        ]
    );
}

#[test]
fn explicit_table_mapping_with_parent_key() {
    let mapping = vec![(
        "items".to_string(),
        MappingType::Table(TableMapping {
            destination: "order_items".to_string(),
            parent_key: Some(ColumnMapping {
                destination: "order_id".to_string(),
                primary_key: true,
            }),
            table_mapping: vec![
                (
                    "id".to_string(),
                    MappingType::Column {
                        mapping: ColumnMapping {
                            destination: "item_id".to_string(),
                            primary_key: false,
                        },
                    },
                ),
                (
                    "quantity".to_string(),
                    MappingType::Column {
                        mapping: ColumnMapping {
                            destination: "quantity".to_string(),
                            primary_key: false,
                        },
                    },
                ),
            ],
        }),
    )];
    let mut p = Parser::new(config_with(mapping, "", false));
    let doc = obj(vec![
        ("id", sv("1")),
        (
            "items",
            Value::Array(vec![obj(vec![("id", sv("A")), ("quantity", sv("10"))])]),
        ),
    ]);
    p.process_document(&doc, "").unwrap();
    let (headers, rows) = rendered(&p, "order_items");
    assert_eq!(
        headers,
        vec!["item_id".to_string(), "quantity".to_string(), "order_id".to_string()]
    );
    assert_eq!(
        rows,
        vec![vec!["A".to_string(), "10".to_string(), "1".to_string()]]
    );
    // the link column carries the parent's id, not a synthesized index, and
    // its primary_key flag is recorded as table metadata
    let t = p.tables.get("order_items").unwrap();
    assert_eq!(t.primary_keys, vec!["order_id".to_string()]);
}

#[test]
fn unmapped_nested_object_is_dropped() {
    let mut p = Parser::new(plain_config());
    let doc = obj(vec![("id", sv("1")), ("meta", obj(vec![("x", sv("y"))]))]);
    p.process_document(&doc, "").unwrap();
    let (headers, _) = rendered(&p, "root");
    assert_eq!(headers, vec!["id".to_string()]);
    assert!(p.tables.get("meta").is_none());
    assert_eq!(p.tables.entries.len(), 1);
}

#[test]
fn empty_array_creates_no_table() {
    let mut p = Parser::new(plain_config());
    let doc = obj(vec![("id", sv("1")), ("items", Value::Array(Vec::new()))]);
    p.process_document(&doc, "").unwrap();
    assert!(p.tables.get("items").is_none());
    assert_eq!(p.tables.entries.len(), 1);
}

#[test]
fn non_object_array_elements_are_ignored() {
    let mut p = Parser::new(plain_config());
    let doc = obj(vec![(
        "items",
        Value::Array(vec![sv("loose"), obj(vec![("id", sv("b"))])]),
    )]);
    p.process_document(&doc, "").unwrap();
    let (headers, rows) = rendered(&p, "items");
    assert_eq!(headers, vec!["id".to_string(), "JSON_parentId".to_string()]);
    assert_eq!(rows, vec![vec!["b".to_string(), "items_1".to_string()]]);
}

#[test]
fn file_name_column_on_root_row_only() {
    let mut p = Parser::new(config_with(Vec::new(), "", true));
    let doc = obj(vec![
        ("id", sv("1")),
        ("items", Value::Array(vec![obj(vec![("id", sv("A"))])])),
    ]);
    p.process_document(&doc, "test.json").unwrap();
    let (headers, rows) = rendered(&p, "root");
    assert_eq!(
        headers,
        vec!["keboola_file_name_col".to_string(), "id".to_string()]
    );
    assert_eq!(rows, vec![vec!["test.json".to_string(), "1".to_string()]]);
    let (child_headers, _) = rendered(&p, "items");
    assert!(!child_headers.contains(&"keboola_file_name_col".to_string()));
}

#[test]
fn scalar_root_is_a_no_op() {
    let mut p = Parser::new(plain_config());
    p.process_document(&sv("just a string"), "").unwrap();
    assert!(p.tables.entries.is_empty());
}

#[test]
fn config_validate_accepts() {
    assert!(plain_config().validate().is_ok());
}

#[test]
fn empty_object_contributes_an_empty_row() {
    let mut p = Parser::new(plain_config());
    p.process_document(&obj(Vec::new()), "").unwrap();
    let t = p.tables.get("root").expect("table should exist");
    assert!(t.headers.is_empty());
    assert_eq!(t.rows.len(), 1);
    assert!(render_row(&t.headers, &t.rows[0]).is_empty());
}

#[test]
fn nested_implicit_relations() {
    let mut p = Parser::new(plain_config());
    let doc = obj(vec![(
        "a",
        Value::Array(vec![obj(vec![(
            "b",
            Value::Array(vec![obj(vec![("x", sv("1"))])]),
        )])]),
    )]);
    p.process_document(&doc, "").unwrap();
    let (bh, br) = rendered(&p, "b");
    assert_eq!(bh, vec!["x".to_string(), "JSON_parentId".to_string()]);
    assert_eq!(br, vec![vec!["1".to_string(), "b_0".to_string()]]);
    let (ah, ar) = rendered(&p, "a");
    assert_eq!(ah, vec!["JSON_parentId".to_string()]);
    assert_eq!(ar, vec![vec!["a_0".to_string()]]);
}

#[test]
fn nested_table_mappings_link_by_parent_id() {
    let lines_mapping = MappingType::Table(TableMapping {
        destination: "order_lines".to_string(),
        parent_key: Some(ColumnMapping {
            destination: "order_ref".to_string(),
            primary_key: false,
        }),
        table_mapping: vec![(
            "qty".to_string(),
            MappingType::Column {
                mapping: ColumnMapping { destination: "quantity".to_string(), primary_key: false },
            },
        )],
    });
    let mapping = vec![(
        "orders".to_string(),
        MappingType::Table(TableMapping {
            destination: "orders".to_string(),
            parent_key: None,
            table_mapping: vec![("lines".to_string(), lines_mapping)],
        }),
    )];
    let mut p = Parser::new(config_with(mapping, "", false));
    let doc = obj(vec![(
        "orders",
        Value::Array(vec![obj(vec![
            ("id", sv("o1")),
            ("lines", Value::Array(vec![obj(vec![("id", sv("l1")), ("qty", sv("3"))])])),
        ])]),
    )]);
    p.process_document(&doc, "").unwrap();
    let (oh, or) = rendered(&p, "orders");
    assert_eq!(oh, vec!["id".to_string(), "JSON_parentId".to_string()]);
    assert_eq!(or, vec![vec!["o1".to_string(), "root_0".to_string()]]);
    let (lh, lr) = rendered(&p, "order_lines");
    assert_eq!(
        lh,
        vec!["id".to_string(), "quantity".to_string(), "order_ref".to_string()]
    );
    // the child row links to the parent's own id, not a synthesized index
    assert_eq!(
        lr,
        vec![vec!["l1".to_string(), "3".to_string(), "o1".to_string()]]
    );
}

#[test]
fn repeated_contributions_reuse_the_table() {
    let mut p = Parser::new(plain_config());
    let doc1 = obj(vec![("items", Value::Array(vec![obj(vec![("id", sv("A"))])]))]);
    let doc2 = obj(vec![("items", Value::Array(vec![obj(vec![("id", sv("B"))])]))]);
    p.process_document(&doc1, "").unwrap();
    p.process_document(&doc2, "").unwrap();
    // one entry per table name: the registry is a mapping
    assert_eq!(p.tables.entries.len(), 2);
    let (_, rows) = rendered(&p, "items");
    assert_eq!(
        rows,
        vec![
            vec!["A".to_string(), "items_0".to_string()],
            vec!["B".to_string(), "items_0".to_string()],
        ]
    );
}

#[test]
fn table_mapping_links_every_element_to_the_parent() {
    let mapping = vec![(
        "items".to_string(),
        MappingType::Table(TableMapping {
            destination: "order_items".to_string(),
            parent_key: Some(ColumnMapping {
                destination: "order_id".to_string(),
                primary_key: false,
            }),
            table_mapping: Vec::new(),
        }),
    )];
    let mut p = Parser::new(config_with(mapping, "", false));
    let doc = obj(vec![
        ("id", sv("7")),
        (
            "items",
            Value::Array(vec![obj(vec![("sku", sv("a"))]), obj(vec![("sku", sv("b"))])]),
        ),
    ]);
    p.process_document(&doc, "").unwrap();
    let (headers, rows) = rendered(&p, "order_items");
    assert_eq!(headers, vec!["sku".to_string(), "order_id".to_string()]);
    // the supplied link takes precedence over index synthesis for every element
    assert_eq!(
        rows,
        vec![
            vec!["a".to_string(), "7".to_string()],
            vec!["b".to_string(), "7".to_string()],
        ]
    );
}
