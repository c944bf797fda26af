use tantivy_ex::document::Document;
use tantivy_ex::project::{project_document, project_hit, project_result, put_entry, searcher_search_with_query, Hit};
use tantivy_ex::schema::{schema_add_text_field, schema_add_u64_field, schema_builder_new, Schema};
use tantivy_ex::value::{DynValue, TypedValue};

fn text(s: &str) -> DynValue {
    DynValue::Str(s.to_string())
}

fn object(entries: Vec<(&str, DynValue)>) -> DynValue {
    DynValue::Object(entries.into_iter().map(|(k, v)| (k.to_string(), v)).collect())
}

fn schema() -> Schema {
    let s = schema_builder_new();
    let s = schema_add_text_field(&s, "title", "TEXT_STORED").unwrap();
    schema_add_u64_field(&s, "count", "STORED").unwrap()
}

#[test]
fn projects_every_kind_of_value() {
    assert_eq!(project_result(&TypedValue::Null), DynValue::Null);
    assert_eq!(project_result(&TypedValue::Str("a".into())), text("a"));
    assert_eq!(project_result(&TypedValue::U64(1)), DynValue::Unsigned(1));
    assert_eq!(project_result(&TypedValue::I64(-1)), DynValue::Signed(-1));
    assert_eq!(project_result(&TypedValue::F64("1.5".into())), DynValue::Float("1.5".into()));
    assert_eq!(project_result(&TypedValue::Bool(true)), DynValue::Bool(true));
    assert_eq!(project_result(&TypedValue::Date(1_500_000_000)), DynValue::Signed(1_500_000_000));
    assert_eq!(project_result(&TypedValue::Facet("a\u{0}b".into())), text("/a/b"));
    assert_eq!(project_result(&TypedValue::Facet(String::new())), text("/"));
    assert_eq!(project_result(&TypedValue::Bytes(b"hello".to_vec())), text("aGVsbG8="));
    assert_eq!(project_result(&TypedValue::Bytes(vec![])), text(""));
    assert_eq!(project_result(&TypedValue::Bytes(vec![0xfb, 0xff])), text("+/8="));
    assert_eq!(project_result(&TypedValue::IpAddr(1)), text("::1"));
    assert_eq!(
        project_result(&TypedValue::Array(vec![TypedValue::U64(1), TypedValue::Array(vec![])])),
        DynValue::List(vec![DynValue::Unsigned(1), DynValue::List(vec![])])
    );
    assert_eq!(
        project_result(&TypedValue::Object(vec![
            ("b".into(), TypedValue::Bytes(vec![1])),
            ("a".into(), TypedValue::Object(vec![("x".into(), TypedValue::Null)])),
        ])),
        object(vec![("b", text("AQ==")), ("a", object(vec![("x", DynValue::Null)]))])
    );
}

#[test]
fn putting_replaces_the_first_entry_of_the_key() {
    let mut entries = vec![("a".to_string(), DynValue::Unsigned(1)), ("b".to_string(), DynValue::Unsigned(2))];
    put_entry(&mut entries, "c".to_string(), DynValue::Unsigned(3));
    put_entry(&mut entries, "a".to_string(), DynValue::Unsigned(4));
    assert_eq!(
        entries,
        vec![
            ("a".to_string(), DynValue::Unsigned(4)),
            ("b".to_string(), DynValue::Unsigned(2)),
            ("c".to_string(), DynValue::Unsigned(3)),
        ]
    );
}

#[test]
fn document_is_projected_under_the_names_of_its_fields() {
    let doc = Document {
        field_values: vec![
            (1, TypedValue::U64(1)),
            (0, TypedValue::Str("a".into())),
            (1, TypedValue::U64(2)),
        ],
    };
    assert_eq!(
        project_document(&schema(), &doc),
        object(vec![("count", DynValue::Unsigned(2)), ("title", text("a"))])
    );
    assert_eq!(project_document(&schema(), &Document { field_values: vec![] }), object(vec![]));
}

#[test]
fn hits_show_score_and_document() {
    let with_doc = Hit {
        score: "1.5".into(),
        doc_id: 7,
        document: Some(Document { field_values: vec![(0, TypedValue::Str("a".into()))] }),
    };
    let without = Hit { score: "0.5".into(), doc_id: 8, document: None };
    assert_eq!(
        project_hit(&schema(), &with_doc),
        object(vec![("score", DynValue::Float("1.5".into())), ("doc_id", DynValue::Unsigned(7)), ("title", text("a"))])
    );
    assert_eq!(
        searcher_search_with_query(&schema(), &vec![with_doc, without]),
        DynValue::List(vec![
            object(vec![
                ("score", DynValue::Float("1.5".into())),
                ("doc_id", DynValue::Unsigned(7)),
                ("title", text("a")),
            ]),
            object(vec![("score", DynValue::Float("0.5".into())), ("doc_id", DynValue::Unsigned(8))]),
        ])
    );
    assert_eq!(searcher_search_with_query(&schema(), &vec![]), DynValue::List(vec![]));
}
