use tantivy_ex::coerce::CoercionError;
use tantivy_ex::document::{
    add_field_to_document, batch_summary, build_document, validate_document_against_schema,
    writer_add_document, writer_add_document_batch, Document, DocumentError, FieldError, FieldFault,
};
use tantivy_ex::schema::{
    schema_add_facet_field, schema_add_text_field, schema_add_u64_field, schema_builder_new, Schema,
};
use tantivy_ex::value::{DynValue, FieldType, TypedValue};

fn text(s: &str) -> DynValue {
    DynValue::Str(s.to_string())
}

fn schema() -> Schema {
    let s = schema_builder_new();
    let s = schema_add_text_field(&s, "title", "TEXT_STORED").unwrap();
    let s = schema_add_u64_field(&s, "count", "INDEXED_STORED").unwrap();
    schema_add_facet_field(&s, "tags", "").unwrap()
}

fn note(field: &str, fault: FieldFault) -> FieldError {
    FieldError { field: field.to_string(), fault }
}

#[test]
fn builds_a_document_in_the_order_of_the_entries() {
    let entries = vec![
        ("count".to_string(), DynValue::Unsigned(3)),
        ("title".to_string(), text("Quick Fox")),
    ];
    let (doc, notes) = build_document(&schema(), &entries);
    assert_eq!(
        doc.field_values,
        vec![(1, TypedValue::U64(3)), (0, TypedValue::Str("Quick Fox".into()))]
    );
    assert_eq!(notes, vec![]);
}

#[test]
fn negative_count_is_reported_under_its_field() {
    let entries = vec![("count".to_string(), DynValue::Signed(-5))];
    let (doc, notes) = build_document(&schema(), &entries);
    assert_eq!(doc.field_values, vec![]);
    assert_eq!(notes, vec![note("count", FieldFault::Rejected(CoercionError::NegativeForUnsigned))]);
}

#[test]
fn facet_list_gives_two_values() {
    let entries = vec![("tags".to_string(), DynValue::List(vec![text("/a/b"), text("/a/c")]))];
    let (doc, notes) = build_document(&schema(), &entries);
    assert_eq!(
        doc.field_values,
        vec![(2, TypedValue::Facet("a\u{0}b".into())), (2, TypedValue::Facet("a\u{0}c".into()))]
    );
    assert_eq!(notes, vec![]);
}

#[test]
fn every_fault_is_noted_and_the_rest_is_built() {
    let entries = vec![
        ("nope".to_string(), DynValue::Unsigned(1)),
        ("count".to_string(), text("many")),
        ("title".to_string(), text("kept")),
        ("tags".to_string(), text("no slash")),
        ("title".to_string(), DynValue::Bool(true)),
    ];
    let (doc, notes) = build_document(&schema(), &entries);
    assert_eq!(doc.field_values, vec![(0, TypedValue::Str("kept".into()))]);
    assert_eq!(
        notes,
        vec![
            note("nope", FieldFault::Unknown),
            note("count", FieldFault::Rejected(CoercionError::InvalidNumber)),
            note("tags", FieldFault::Rejected(CoercionError::InvalidFacet)),
            note("title", FieldFault::Rejected(CoercionError::TypeMismatch)),
        ]
    );
}

#[test]
fn a_field_may_occur_twice() {
    let entries = vec![("title".to_string(), text("a")), ("title".to_string(), text("b"))];
    let (doc, _) = build_document(&schema(), &entries);
    assert_eq!(doc.field_values, vec![(0, TypedValue::Str("a".into())), (0, TypedValue::Str("b".into()))]);
}

#[test]
fn adding_a_field_value_leaves_the_document_on_error() {
    let mut doc = Document { field_values: vec![(0, TypedValue::Str("a".into()))] };
    assert_eq!(add_field_to_document(&mut doc, 1, "count", FieldType::U64, &DynValue::Unsigned(2)), Ok(()));
    assert_eq!(doc.field_values, vec![(0, TypedValue::Str("a".into())), (1, TypedValue::U64(2))]);
    assert_eq!(
        add_field_to_document(&mut doc, 1, "count", FieldType::U64, &DynValue::Signed(-2)),
        Err(FieldError {
            field: "count".to_string(),
            fault: FieldFault::Rejected(CoercionError::NegativeForUnsigned)
        })
    );
    assert_eq!(doc.field_values, vec![(0, TypedValue::Str("a".into())), (1, TypedValue::U64(2))]);
}

#[test]
fn a_refused_value_names_its_field() {
    let mut doc = Document { field_values: vec![] };
    assert_eq!(
        add_field_to_document(&mut doc, 1, "count", FieldType::U64, &DynValue::Signed(-5)),
        Err(FieldError {
            field: "count".to_string(),
            fault: FieldFault::Rejected(CoercionError::NegativeForUnsigned)
        })
    );
    assert_eq!(doc.field_values, vec![]);
    assert_eq!(
        add_field_to_document(&mut doc, 0, "title", FieldType::Text, &DynValue::Bool(true)),
        Err(FieldError {
            field: "title".to_string(),
            fault: FieldFault::Rejected(CoercionError::TypeMismatch)
        })
    );
    assert_eq!(doc.field_values, vec![]);
}

#[test]
fn unknown_field_does_not_keep_a_document_out() {
    let input = DynValue::Object(vec![
        ("nope".to_string(), DynValue::Unsigned(1)),
        ("title".to_string(), text("in")),
    ]);
    let doc = writer_add_document(&schema(), &input).unwrap();
    assert_eq!(doc.field_values, vec![(0, TypedValue::Str("in".into()))]);
}

#[test]
fn refused_value_keeps_the_whole_document_out() {
    let input = DynValue::Object(vec![
        ("title".to_string(), text("in")),
        ("nope".to_string(), DynValue::Unsigned(1)),
        ("count".to_string(), DynValue::Signed(-5)),
    ]);
    assert_eq!(
        writer_add_document(&schema(), &input),
        Err(DocumentError::Refused(vec![
            note("nope", FieldFault::Unknown),
            note("count", FieldFault::Rejected(CoercionError::NegativeForUnsigned)),
        ]))
    );
    assert_eq!(writer_add_document(&schema(), &text("x")), Err(DocumentError::NotAnObject));
    assert_eq!(writer_add_document(&schema(), &DynValue::Object(vec![])), Ok(Document { field_values: vec![] }));
}

#[test]
fn validation_counts_unknown_fields_too() {
    let good = DynValue::Object(vec![("title".to_string(), text("in"))]);
    assert_eq!(validate_document_against_schema(&good, &schema()), Ok(()));
    let unknown = DynValue::Object(vec![("nope".to_string(), text("in"))]);
    assert_eq!(
        validate_document_against_schema(&unknown, &schema()),
        Err(DocumentError::Refused(vec![note("nope", FieldFault::Unknown)]))
    );
    assert_eq!(
        validate_document_against_schema(&DynValue::List(vec![]), &schema()),
        Err(DocumentError::NotAnObject)
    );
}

#[test]
fn batch_judges_each_document_by_itself() {
    let docs = vec![
        DynValue::Object(vec![("title".to_string(), text("a"))]),
        DynValue::Object(vec![("count".to_string(), DynValue::Signed(-1))]),
        text("not a document"),
        DynValue::Object(vec![("count".to_string(), DynValue::Unsigned(4))]),
    ];
    let outcome = writer_add_document_batch(&schema(), &docs);
    assert_eq!(
        outcome.accepted,
        vec![
            (0, Document { field_values: vec![(0, TypedValue::Str("a".into()))] }),
            (3, Document { field_values: vec![(1, TypedValue::U64(4))] }),
        ]
    );
    assert_eq!(
        outcome.refused,
        vec![
            (
                1,
                DocumentError::Refused(vec![note(
                    "count",
                    FieldFault::Rejected(CoercionError::NegativeForUnsigned)
                )])
            ),
            (2, DocumentError::NotAnObject),
        ]
    );
    assert_eq!(batch_summary(outcome.accepted.len(), outcome.refused.len()), "{\"successful\": 2, \"errors\": 2}");
    let none = writer_add_document_batch(&schema(), &vec![]);
    assert_eq!(batch_summary(none.accepted.len(), none.refused.len()), "{\"successful\": 0, \"errors\": 0}");
}
