use tantivy_ex::compile::{
    facet_from_text, facet_multi_query, facet_term_query, facet_to_string, query_all, query_boolean,
    query_empty, query_exists, query_fuzzy, query_more_like_this, query_parser_new,
    query_parser_parse, query_phrase, query_phrase_prefix, query_range_f64, query_range_i64,
    query_range_u64, query_regex, query_term, query_wildcard, wildcard_query_checked,
    wildcard_to_regex, Fault, QueryError,
};
use tantivy_ex::query::{MoreLikeThisParams, Occur, Query, Term};
use tantivy_ex::schema::{
    schema_add_bool_field, schema_add_bytes_field, schema_add_date_field, schema_add_f64_field,
    schema_add_facet_field, schema_add_i64_field, schema_add_text_field, schema_add_u64_field,
    schema_builder_new, IndexRecord, Schema,
};
use tantivy_ex::value::{FieldType, TypedValue};

// Fields by position: 0 title (tokenized, positions), 1 body (tokenized, no
// positions), 2 id (stored text, not tokenized), 3 count, 4 delta, 5 price,
// 6 live, 7 at, 8 tags, 9 blob.
fn schema() -> Schema {
    let s = schema_builder_new();
    let s = schema_add_text_field(&s, "title", "FAST_STORED").unwrap();
    let s = schema_add_text_field(&s, "body", "TEXT").unwrap();
    let s = schema_add_text_field(&s, "id", "STORED").unwrap();
    let s = schema_add_u64_field(&s, "count", "INDEXED").unwrap();
    let s = schema_add_i64_field(&s, "delta", "INDEXED").unwrap();
    let s = schema_add_f64_field(&s, "price", "INDEXED").unwrap();
    let s = schema_add_bool_field(&s, "live", "INDEXED").unwrap();
    let s = schema_add_date_field(&s, "at", "INDEXED").unwrap();
    let s = schema_add_facet_field(&s, "tags", "").unwrap();
    schema_add_bytes_field(&s, "blob", "STORED").unwrap()
}

fn term(field: u32, value: TypedValue) -> Query {
    Query::Term { term: Term { field, value }, record: IndexRecord::Basic }
}

fn word(field: u32, w: &str) -> Query {
    term(field, TypedValue::Str(w.to_string()))
}

fn invalid(field: &str, reason: Fault) -> QueryError {
    QueryError::InvalidDescriptor { field: field.to_string(), reason }
}

fn bad_value(field: &str, text: &str, expected: FieldType) -> QueryError {
    invalid(field, Fault::Value { text: text.to_string(), expected })
}

#[test]
fn two_words_on_a_tokenized_field_must_both_match() {
    assert_eq!(
        query_term(&schema(), "title", "Quick Fox"),
        Ok(Query::Boolean { clauses: vec![(Occur::Must, word(0, "quick")), (Occur::Must, word(0, "fox"))] })
    );
    assert_eq!(
        query_term(&schema(), "body", "  Quick  brown\tFOX "),
        Ok(Query::Boolean {
            clauses: vec![
                (Occur::Must, word(1, "quick")),
                (Occur::Must, word(1, "brown")),
                (Occur::Must, word(1, "fox")),
            ]
        })
    );
}

#[test]
fn one_word_is_one_lowercase_term() {
    assert_eq!(query_term(&schema(), "title", "Quick"), Ok(word(0, "quick")));
    assert_eq!(query_term(&schema(), "body", "ÉCOLE"), Ok(word(1, "école")));
    assert_eq!(query_term(&schema(), "body", ""), Ok(word(1, "")));
}

#[test]
fn one_word_is_matched_without_the_blanks_around_it() {
    assert_eq!(query_term(&schema(), "title", " Fox "), Ok(word(0, "fox")));
    assert_eq!(query_term(&schema(), "body", "\tQuick\n"), Ok(word(1, "quick")));
    assert_eq!(query_term(&schema(), "body", "fox  "), Ok(word(1, "fox")));
    assert_eq!(query_term(&schema(), "body", "  "), Ok(word(1, "  ")));
    assert_eq!(query_term(&schema(), "id", " Fox "), Ok(word(2, " Fox ")));
}

#[test]
fn untokenized_text_is_matched_as_it_is() {
    assert_eq!(query_term(&schema(), "id", "Quick Fox"), Ok(word(2, "Quick Fox")));
}

#[test]
fn term_values_are_read_by_the_type_of_the_field() {
    assert_eq!(query_term(&schema(), "count", "42"), Ok(term(3, TypedValue::U64(42))));
    assert_eq!(
        query_term(&schema(), "count", " \"42\" "),
        Err(bad_value("count", " \"42\" ", FieldType::U64))
    );
    assert_eq!(query_term(&schema(), "count", "'7'"), Err(bad_value("count", "'7'", FieldType::U64)));
    assert_eq!(query_term(&schema(), "count", " 7"), Err(bad_value("count", " 7", FieldType::U64)));
    assert_eq!(query_term(&schema(), "count", "many"), Err(bad_value("count", "many", FieldType::U64)));
    assert_eq!(query_term(&schema(), "count", "-1"), Err(bad_value("count", "-1", FieldType::U64)));
    assert_eq!(query_term(&schema(), "delta", "-42"), Ok(term(4, TypedValue::I64(-42))));
    assert_eq!(query_term(&schema(), "delta", "4.2"), Err(bad_value("delta", "4.2", FieldType::I64)));
    assert_eq!(query_term(&schema(), "price", "9.5"), Ok(term(5, TypedValue::F64("9.5".into()))));
    assert_eq!(query_term(&schema(), "price", "cheap"), Err(bad_value("price", "cheap", FieldType::F64)));
    assert_eq!(query_term(&schema(), "live", "Yes"), Ok(term(6, TypedValue::Bool(true))));
    assert_eq!(query_term(&schema(), "live", "0"), Ok(term(6, TypedValue::Bool(false))));
    assert_eq!(query_term(&schema(), "live", "so-so"), Err(bad_value("live", "so-so", FieldType::Bool)));
    assert_eq!(query_term(&schema(), "at", "10"), Ok(term(7, TypedValue::Date(10_000_000_000))));
    assert_eq!(query_term(&schema(), "at", "soon"), Err(bad_value("at", "soon", FieldType::Date)));
    assert_eq!(
        query_term(&schema(), "at", "9223372036854775807"),
        Err(invalid("at", Fault::OutOfRange { expected: FieldType::Date }))
    );
    assert_eq!(
        query_term(&schema(), "tags", "/a"),
        Err(invalid("tags", Fault::UnsupportedType { field_type: FieldType::Facet }))
    );
    assert_eq!(
        query_term(&schema(), "nope", "x"),
        Err(QueryError::FieldNotFound { field: "nope".to_string() })
    );
}

#[test]
fn phrase_keeps_its_terms() {
    assert_eq!(
        query_phrase(&schema(), "title", vec!["Quick".into(), "Fox".into()]),
        Ok(Query::Phrase {
            terms: vec![
                Term { field: 0, value: TypedValue::Str("Quick".into()) },
                Term { field: 0, value: TypedValue::Str("Fox".into()) },
            ]
        })
    );
    assert_eq!(
        query_phrase(&schema(), "title", vec!["Quick".into()]),
        Err(invalid("title", Fault::TooFewTerms { given: 1, needed: 2 }))
    );
    assert_eq!(
        query_phrase(&schema(), "title", vec![]),
        Err(invalid("title", Fault::TooFewTerms { given: 0, needed: 2 }))
    );
    assert_eq!(
        query_phrase(&schema(), "nope", vec!["a".into(), "b".into()]),
        Err(QueryError::FieldNotFound { field: "nope".to_string() })
    );
}

#[test]
fn phrase_prefix_needs_a_term() {
    assert_eq!(
        query_phrase_prefix(&schema(), "title", vec!["qui".into()], 50),
        Ok(Query::PhrasePrefix {
            terms: vec![Term { field: 0, value: TypedValue::Str("qui".into()) }],
            max_expansions: 50
        })
    );
    assert_eq!(
        query_phrase_prefix(&schema(), "title", vec![], 50),
        Err(invalid("title", Fault::TooFewTerms { given: 0, needed: 1 }))
    );
}

#[test]
fn range_sides_are_independent() {
    assert_eq!(
        query_range_u64(&schema(), "count", Some(1), Some(9)),
        Ok(Query::Range { field: 3, lower: Some(TypedValue::U64(1)), upper: Some(TypedValue::U64(9)) })
    );
    assert_eq!(
        query_range_u64(&schema(), "count", None, Some(9)),
        Ok(Query::Range { field: 3, lower: None, upper: Some(TypedValue::U64(9)) })
    );
    assert_eq!(
        query_range_i64(&schema(), "delta", Some(-1), None),
        Ok(Query::Range { field: 4, lower: Some(TypedValue::I64(-1)), upper: None })
    );
    assert_eq!(
        query_range_i64(&schema(), "delta", None, None),
        Ok(Query::Range { field: 4, lower: None, upper: None })
    );
    assert_eq!(
        query_range_f64(&schema(), "price", Some("0.5".into()), Some("1e3".into())),
        Ok(Query::Range {
            field: 5,
            lower: Some(TypedValue::F64("0.5".into())),
            upper: Some(TypedValue::F64("1e3".into()))
        })
    );
    assert_eq!(
        query_range_f64(&schema(), "price", Some("low".into()), Some("high".into())),
        Err(bad_value("price", "low", FieldType::F64))
    );
    assert_eq!(
        query_range_f64(&schema(), "price", None, Some("high".into())),
        Err(bad_value("price", "high", FieldType::F64))
    );
    assert_eq!(
        query_range_u64(&schema(), "nope", None, None),
        Err(QueryError::FieldNotFound { field: "nope".to_string() })
    );
}

#[test]
fn boolean_orders_clauses_by_role() {
    let q = query_boolean(vec![word(0, "a"), word(0, "b")], vec![Query::All], vec![Query::Empty]);
    assert_eq!(
        q,
        Query::Boolean {
            clauses: vec![
                (Occur::Must, word(0, "a")),
                (Occur::Must, word(0, "b")),
                (Occur::Should, Query::All),
                (Occur::MustNot, Query::Empty),
            ]
        }
    );
    assert_eq!(query_boolean(vec![], vec![], vec![]), Query::Boolean { clauses: vec![] });
    let nested = query_boolean(vec![], vec![query_boolean(vec![Query::All], vec![], vec![])], vec![]);
    assert_eq!(
        nested,
        Query::Boolean {
            clauses: vec![(Occur::Should, Query::Boolean { clauses: vec![(Occur::Must, Query::All)] })]
        }
    );
}

#[test]
fn fuzzy_hands_its_parameters_on() {
    assert_eq!(
        query_fuzzy(&schema(), "title", "Quikc", 2, true),
        Ok(Query::Fuzzy {
            term: Term { field: 0, value: TypedValue::Str("Quikc".into()) },
            distance: 2,
            prefix: true
        })
    );
    assert_eq!(
        query_fuzzy(&schema(), "nope", "x", 1, false),
        Err(QueryError::FieldNotFound { field: "nope".to_string() })
    );
}

#[test]
fn regex_is_judged_by_the_engine() {
    assert_eq!(
        query_regex(&schema(), "title", "qu.*k"),
        Ok(Query::Regex { field: 0, pattern: "qu.*k".into() })
    );
    assert_eq!(
        query_regex(&schema(), "title", "qu(ick"),
        Err(invalid("title", Fault::Pattern { pattern: "qu(ick".into() }))
    );
    assert_eq!(
        query_regex(&schema(), "nope", "a"),
        Err(QueryError::FieldNotFound { field: "nope".to_string() })
    );
}

#[test]
fn wildcards_become_a_regular_expression() {
    assert_eq!(wildcard_to_regex("abc*"), "abc.*");
    assert_eq!(wildcard_to_regex("a?c"), "a.c");
    assert_eq!(wildcard_to_regex("*"), ".*");
    assert_eq!(wildcard_to_regex(""), "");
    assert_eq!(wildcard_to_regex("a.b"), "a\\.b");
    assert_eq!(wildcard_to_regex("(a+b)|[c]{d}^$\\#&-~"), "\\(a\\+b\\)\\|\\[c\\]\\{d\\}\\^\\$\\\\\\#\\&\\-\\~");
    assert_eq!(wildcard_to_regex("1.5*?"), "1\\.5.*.");
    assert_eq!(
        query_wildcard(&schema(), "title", "abc*"),
        Ok(Query::Regex { field: 0, pattern: "abc.*".into() })
    );
    assert_eq!(
        query_wildcard(&schema(), "title", "a(b*"),
        Ok(Query::Regex { field: 0, pattern: "a\\(b.*".into() })
    );
    assert_eq!(
        query_wildcard(&schema(), "nope", "abc*"),
        Err(QueryError::FieldNotFound { field: "nope".to_string() })
    );
}

#[test]
fn prefix_pattern_still_matches_where_the_expression_is_refused() {
    assert_eq!(
        wildcard_query_checked(&schema(), "title", "abc*", false),
        Ok(Query::PhrasePrefix {
            terms: vec![Term { field: 0, value: TypedValue::Str("abc".into()) }],
            max_expansions: u32::MAX
        })
    );
    assert_eq!(
        wildcard_query_checked(&schema(), "title", "*", false),
        Ok(Query::PhrasePrefix {
            terms: vec![Term { field: 0, value: TypedValue::Str(String::new()) }],
            max_expansions: u32::MAX
        })
    );
    for pattern in ["a*c*", "a?c*", "abc", "", "*abc", "abc?"] {
        assert_eq!(
            wildcard_query_checked(&schema(), "title", pattern, false),
            Err(invalid("title", Fault::Pattern { pattern: pattern.to_string() })),
            "{pattern}"
        );
    }
    assert_eq!(
        wildcard_query_checked(&schema(), "title", "abc*", true),
        Ok(Query::Regex { field: 0, pattern: "abc.*".into() })
    );
}

#[test]
fn exists_all_and_empty() {
    assert_eq!(query_exists(&schema(), "title"), Ok(Query::Exists { field_name: "title".into() }));
    assert_eq!(query_exists(&schema(), "nope"), Err(QueryError::FieldNotFound { field: "nope".to_string() }));
    assert_eq!(query_all(), Query::All);
    assert_eq!(query_empty(), Query::Empty);
}

#[test]
fn facet_query_is_on_the_field_that_is_named() {
    assert_eq!(
        facet_term_query(&schema(), "tags", "/a/b"),
        Ok(term(8, TypedValue::Facet("a\u{0}b".into())))
    );
    assert_eq!(
        facet_term_query(&schema(), "tags", "a/b"),
        Err(invalid("tags", Fault::FacetPath { path: "a/b".into() }))
    );
    assert_eq!(
        facet_term_query(&schema(), "title", "/a/b"),
        Err(invalid("title", Fault::UnsupportedType { field_type: FieldType::Text }))
    );
    assert_eq!(
        facet_term_query(&schema(), "nope", "/a/b"),
        Err(QueryError::FieldNotFound { field: "nope".to_string() })
    );
}

#[test]
fn several_facets_should_match() {
    assert_eq!(
        facet_multi_query(&schema(), "tags", &vec!["/a".to_string(), "/b/c".to_string()]),
        Ok(Query::Boolean {
            clauses: vec![
                (Occur::Should, term(8, TypedValue::Facet("a".into()))),
                (Occur::Should, term(8, TypedValue::Facet("b\u{0}c".into()))),
            ]
        })
    );
    assert_eq!(facet_multi_query(&schema(), "tags", &vec![]), Ok(Query::Boolean { clauses: vec![] }));
    assert_eq!(
        facet_multi_query(&schema(), "tags", &vec!["/a".to_string(), "b".to_string(), "c".to_string()]),
        Err(invalid("tags", Fault::FacetPath { path: "b".into() }))
    );
    assert_eq!(
        facet_multi_query(&schema(), "count", &vec!["/a".to_string()]),
        Err(invalid("count", Fault::UnsupportedType { field_type: FieldType::U64 }))
    );
    assert_eq!(
        facet_multi_query(&schema(), "nope", &vec![]),
        Err(QueryError::FieldNotFound { field: "nope".to_string() })
    );
}

#[test]
fn facet_texts() {
    assert_eq!(facet_from_text("/a/b"), Ok("a\u{0}b".to_string()));
    assert_eq!(facet_from_text("/"), Ok(String::new()));
    assert_eq!(facet_from_text("a"), Err(Fault::FacetPath { path: "a".into() }));
    assert_eq!(facet_from_text(""), Err(Fault::FacetPath { path: String::new() }));
    assert_eq!(facet_to_string("a\u{0}b"), "/a/b");
    assert_eq!(facet_to_string(""), "/");
    assert_eq!(facet_to_string("a/b"), "/a\\/b");
}

fn no_params() -> MoreLikeThisParams {
    MoreLikeThisParams {
        min_doc_frequency: None,
        max_doc_frequency: None,
        min_term_frequency: None,
        max_query_terms: None,
        min_word_length: None,
        max_word_length: None,
        boost_factor: None,
    }
}

fn like(doc_json: &str) -> Result<Query, QueryError> {
    query_more_like_this(&schema(), doc_json, None, None, None, None, None, None, None)
}

#[test]
fn more_like_this_takes_what_the_fields_take() {
    assert_eq!(
        like(r#"{"title": "Quick Fox", "count": 3, "nope": 1, "tags": ["/a", 7, "/b"], "blob": null}"#),
        Ok(Query::MoreLikeThis {
            seed: vec![
                (3, vec![TypedValue::U64(3)]),
                (8, vec![TypedValue::Facet("a".into()), TypedValue::Facet("b".into())]),
                (0, vec![TypedValue::Str("Quick Fox".into())]),
            ],
            params: no_params()
        })
    );
    assert_eq!(
        query_more_like_this(
            &schema(),
            r#"{"price": 2.5}"#,
            Some(1),
            Some(100),
            Some(2),
            Some(25),
            Some(3),
            Some(30),
            Some("1.5".into())
        ),
        Ok(Query::MoreLikeThis {
            seed: vec![(5, vec![TypedValue::F64("2.5".into())])],
            params: MoreLikeThisParams {
                min_doc_frequency: Some(1),
                max_doc_frequency: Some(100),
                min_term_frequency: Some(2),
                max_query_terms: Some(25),
                min_word_length: Some(3),
                max_word_length: Some(30),
                boost_factor: Some("1.5".into()),
            }
        })
    );
}

#[test]
fn more_like_this_needs_a_seed() {
    assert_eq!(like("{}"), Err(QueryError::NoSeedFields));
    assert_eq!(like(r#"{"nope": "x"}"#), Err(QueryError::NoSeedFields));
    assert_eq!(like(r#"{"count": "many", "title": 5, "tags": [1, 2]}"#), Err(QueryError::NoSeedFields));
    assert_eq!(like(r#"{"title": {"nested": "x"}}"#), Err(QueryError::NoSeedFields));
    assert_eq!(like("[1, 2]"), Err(QueryError::NoSeedFields));
    assert_eq!(like("{not json"), Err(invalid("", Fault::Json)));
    assert_eq!(
        query_more_like_this(&schema(), r#"{"title": "x"}"#, None, None, None, None, None, None, Some("big".into())),
        Err(bad_value("boost_factor", "big", FieldType::F64))
    );
}

#[test]
fn parser_needs_default_fields_that_exist() {
    assert_eq!(query_parser_new(&schema(), &vec!["title".to_string(), "body".to_string()]), Ok(vec![0, 1]));
    assert_eq!(query_parser_new(&schema(), &vec![]), Err(QueryError::NoDefaultFields));
    assert_eq!(
        query_parser_new(&schema(), &vec!["title".to_string(), "nope".to_string(), "zip".to_string()]),
        Err(QueryError::FieldNotFound { field: "nope".to_string() })
    );
}

#[test]
fn parser_refuses_an_empty_query() {
    assert_eq!(query_parser_parse("title:fox"), Ok(()));
    assert_eq!(query_parser_parse(" x "), Ok(()));
    assert_eq!(query_parser_parse(""), Err(QueryError::EmptyQuery));
    assert_eq!(query_parser_parse(" \t\n"), Err(QueryError::EmptyQuery));
}

#[test]
fn a_duplicate_is_equal_to_what_it_was_made_from() {
    let s = schema();
    let nested = TypedValue::Object(vec![
        ("a".to_string(), TypedValue::Array(vec![TypedValue::I64(-1), TypedValue::Null])),
        ("b".to_string(), TypedValue::Bytes(vec![0, 255])),
        ("c".to_string(), TypedValue::IpAddr(1)),
    ]);
    assert_eq!(nested.duplicate(), nested);
    let term = Term { field: 3, value: TypedValue::U64(9) };
    assert_eq!(term.duplicate(), term);
    let words = query_term(&s, "body", "Quick Fox").unwrap();
    let range = query_range_i64(&s, "delta", Some(-2), None).unwrap();
    let both = query_boolean(vec![words], vec![range], vec![query_all()]);
    assert_eq!(both.duplicate(), both);
}

#[test]
fn a_literal_too_long_for_an_expression_is_matched_as_a_prefix() {
    let literal = "a".repeat(3000);
    let pattern = format!("{literal}*");
    assert_eq!(
        query_wildcard(&schema(), "body", &pattern),
        Ok(Query::PhrasePrefix {
            terms: vec![Term { field: 1, value: TypedValue::Str(literal.clone()) }],
            max_expansions: u32::MAX
        })
    );
    let inner = format!("{literal}?b*");
    assert_eq!(
        query_wildcard(&schema(), "body", &inner),
        Err(invalid("body", Fault::Pattern { pattern: inner.clone() }))
    );
}
