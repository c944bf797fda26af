use tantivy_ex::compile::query_term;
use tantivy_ex::deletion::{writer_delete_term, DeleteError, DeleteTarget};
use tantivy_ex::query::{Occur, Query, Term};
use tantivy_ex::schema::{
    schema_add_bool_field, schema_add_date_field, schema_add_f64_field, schema_add_facet_field,
    schema_add_i64_field, schema_add_text_field, schema_add_u64_field, schema_builder_new,
    IndexRecord, Schema,
};
use tantivy_ex::value::{DynValue, FieldType, TypedValue};

// Fields by position: 0 title (tokenized, positions), 1 body (tokenized, no
// positions), 2 id (not tokenized), 3 count, 4 delta, 5 price, 6 live, 7 at,
// 8 tags.
fn schema() -> Schema {
    let s = schema_builder_new();
    let s = schema_add_text_field(&s, "title", "FAST_STORED").unwrap();
    let s = schema_add_text_field(&s, "body", "TEXT").unwrap();
    let s = schema_add_text_field(&s, "id", "STORED").unwrap();
    let s = schema_add_u64_field(&s, "count", "INDEXED").unwrap();
    let s = schema_add_i64_field(&s, "delta", "INDEXED").unwrap();
    let s = schema_add_f64_field(&s, "price", "INDEXED").unwrap();
    let s = schema_add_bool_field(&s, "live", "INDEXED").unwrap();
    let s = schema_add_date_field(&s, "at", "INDEXED").unwrap();
    schema_add_facet_field(&s, "tags", "").unwrap()
}

fn text(s: &str) -> DynValue {
    DynValue::Str(s.to_string())
}

fn word(field: u32, w: &str) -> Term {
    Term { field, value: TypedValue::Str(w.to_string()) }
}

fn exact(field: u32, value: TypedValue) -> Result<DeleteTarget, DeleteError> {
    Ok(DeleteTarget::Term(Term { field, value }))
}

fn unparsable(field: &str, text: &str, expected: FieldType) -> Result<DeleteTarget, DeleteError> {
    Err(DeleteError::Unparsable { field: field.to_string(), text: text.to_string(), expected })
}

fn invalid(field: &str, expected: FieldType) -> Result<DeleteTarget, DeleteError> {
    Err(DeleteError::InvalidValue { field: field.to_string(), expected })
}

#[test]
fn words_with_positions_are_deleted_as_a_phrase() {
    assert_eq!(
        writer_delete_term(&schema(), "title", &text("Quick Fox")),
        Ok(DeleteTarget::Query(Query::Phrase { terms: vec![word(0, "quick"), word(0, "fox")] }))
    );
}

#[test]
fn words_without_positions_are_deleted_as_a_conjunction() {
    assert_eq!(
        writer_delete_term(&schema(), "body", &text("Quick Fox")),
        Ok(DeleteTarget::Query(Query::Boolean {
            clauses: vec![
                (Occur::Must, Query::Term { term: word(1, "quick"), record: IndexRecord::Basic }),
                (Occur::Must, Query::Term { term: word(1, "fox"), record: IndexRecord::Basic }),
            ]
        }))
    );
}

#[test]
fn deletion_and_term_query_agree_without_positions() {
    for value in ["Quick Fox", "a b c", "  x\ty  "] {
        let deleted = writer_delete_term(&schema(), "body", &text(value));
        let queried = query_term(&schema(), "body", value);
        assert_eq!(deleted, Ok(DeleteTarget::Query(queried.unwrap())));
    }
}

#[test]
fn one_word_is_deleted_as_its_lowercase_term() {
    let expected = Ok(DeleteTarget::Query(Query::Term { term: word(0, "quick"), record: IndexRecord::Basic }));
    assert_eq!(writer_delete_term(&schema(), "title", &text("Quick")), expected);
    assert_eq!(writer_delete_term(&schema(), "title", &text("  Quick ")), expected);
}

#[test]
fn text_without_a_word() {
    assert_eq!(
        writer_delete_term(&schema(), "title", &text("  ")),
        Err(DeleteError::NoWords { field: "title".to_string() })
    );
    assert_eq!(
        writer_delete_term(&schema(), "body", &text("")),
        Ok(DeleteTarget::Query(Query::Boolean { clauses: vec![] }))
    );
}

#[test]
fn untokenized_text_is_deleted_as_it_is() {
    assert_eq!(writer_delete_term(&schema(), "id", &text("Quick Fox")), exact(2, TypedValue::Str("Quick Fox".into())));
    assert_eq!(writer_delete_term(&schema(), "id", &DynValue::Unsigned(1)), invalid("id", FieldType::Text));
    assert_eq!(writer_delete_term(&schema(), "title", &DynValue::Bool(true)), invalid("title", FieldType::Text));
}

#[test]
fn numbers_are_deleted_as_exact_terms() {
    assert_eq!(writer_delete_term(&schema(), "count", &DynValue::Unsigned(5)), exact(3, TypedValue::U64(5)));
    assert_eq!(writer_delete_term(&schema(), "count", &DynValue::Signed(5)), exact(3, TypedValue::U64(5)));
    assert_eq!(writer_delete_term(&schema(), "count", &text("5")), exact(3, TypedValue::U64(5)));
    assert_eq!(
        writer_delete_term(&schema(), "count", &DynValue::Signed(-5)),
        Err(DeleteError::Negative { field: "count".to_string() })
    );
    assert_eq!(writer_delete_term(&schema(), "count", &text("five")), unparsable("count", "five", FieldType::U64));
    assert_eq!(writer_delete_term(&schema(), "count", &DynValue::Bool(true)), invalid("count", FieldType::U64));
    assert_eq!(writer_delete_term(&schema(), "delta", &DynValue::Signed(-5)), exact(4, TypedValue::I64(-5)));
    assert_eq!(writer_delete_term(&schema(), "delta", &DynValue::Unsigned(5)), exact(4, TypedValue::I64(5)));
    assert_eq!(
        writer_delete_term(&schema(), "delta", &DynValue::Unsigned(u64::MAX)),
        Err(DeleteError::OutOfRange { field: "delta".to_string(), expected: FieldType::I64 })
    );
    assert_eq!(writer_delete_term(&schema(), "delta", &text("-5")), exact(4, TypedValue::I64(-5)));
    assert_eq!(writer_delete_term(&schema(), "delta", &text("5.0")), unparsable("delta", "5.0", FieldType::I64));
    assert_eq!(writer_delete_term(&schema(), "delta", &DynValue::Null), invalid("delta", FieldType::I64));
    assert_eq!(writer_delete_term(&schema(), "price", &DynValue::Float("9.5".into())), exact(5, TypedValue::F64("9.5".into())));
    assert_eq!(writer_delete_term(&schema(), "price", &DynValue::Signed(-9)), exact(5, TypedValue::F64("-9".into())));
    assert_eq!(writer_delete_term(&schema(), "price", &DynValue::Unsigned(9)), exact(5, TypedValue::F64("9".into())));
    assert_eq!(writer_delete_term(&schema(), "price", &text("9.5")), exact(5, TypedValue::F64("9.5".into())));
    assert_eq!(writer_delete_term(&schema(), "price", &text("dear")), unparsable("price", "dear", FieldType::F64));
    assert_eq!(writer_delete_term(&schema(), "price", &DynValue::Bool(true)), invalid("price", FieldType::F64));
}

#[test]
fn truth_values_and_dates() {
    assert_eq!(writer_delete_term(&schema(), "live", &DynValue::Bool(false)), exact(6, TypedValue::Bool(false)));
    assert_eq!(writer_delete_term(&schema(), "live", &text("T")), exact(6, TypedValue::Bool(true)));
    assert_eq!(writer_delete_term(&schema(), "live", &text("nah")), unparsable("live", "nah", FieldType::Bool));
    assert_eq!(writer_delete_term(&schema(), "live", &DynValue::Unsigned(1)), invalid("live", FieldType::Bool));
    assert_eq!(writer_delete_term(&schema(), "at", &DynValue::Signed(3)), exact(7, TypedValue::Date(3_000_000_000)));
    assert_eq!(writer_delete_term(&schema(), "at", &DynValue::Unsigned(3)), exact(7, TypedValue::Date(3_000_000_000)));
    assert_eq!(writer_delete_term(&schema(), "at", &text("3")), exact(7, TypedValue::Date(3_000_000_000)));
    assert_eq!(
        writer_delete_term(&schema(), "at", &text("1970-01-01T00:00:03Z")),
        unparsable("at", "1970-01-01T00:00:03Z", FieldType::Date)
    );
    assert_eq!(
        writer_delete_term(&schema(), "at", &DynValue::Signed(i64::MIN)),
        Err(DeleteError::OutOfRange { field: "at".to_string(), expected: FieldType::Date })
    );
    assert_eq!(
        writer_delete_term(&schema(), "at", &DynValue::Unsigned(u64::MAX)),
        Err(DeleteError::OutOfRange { field: "at".to_string(), expected: FieldType::Date })
    );
    assert_eq!(writer_delete_term(&schema(), "at", &DynValue::Bool(true)), invalid("at", FieldType::Date));
}

#[test]
fn other_fields_have_no_deletion_by_value() {
    assert_eq!(
        writer_delete_term(&schema(), "tags", &text("/a")),
        Err(DeleteError::Unsupported { field: "tags".to_string(), field_type: FieldType::Facet })
    );
    assert_eq!(
        writer_delete_term(&schema(), "nope", &text("x")),
        Err(DeleteError::FieldNotFound { field: "nope".to_string() })
    );
}

#[test]
fn one_word_is_deleted_by_the_term_that_a_query_matches() {
    for field in ["title", "body"] {
        for value in [" Fox ", "Fox", "\tfox\n"] {
            let query = query_term(&schema(), field, value).unwrap();
            assert_eq!(writer_delete_term(&schema(), field, &text(value)), Ok(DeleteTarget::Query(query)));
        }
    }
    assert_eq!(
        writer_delete_term(&schema(), "title", &text(" Fox ")),
        Ok(DeleteTarget::Query(Query::Term { term: word(0, "fox"), record: IndexRecord::Basic }))
    );
}
