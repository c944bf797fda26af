use tantivy_ex::compile::{Fault, QueryError};
use tantivy_ex::descriptor::{compile_queries, compile_query, QueryDescriptor};
use tantivy_ex::extract::query_extract_terms;
use tantivy_ex::query::{MoreLikeThisParams, Occur, Query, Term};
use tantivy_ex::schema::{
    schema_add_f64_field, schema_add_facet_field, schema_add_i64_field, schema_add_text_field,
    schema_add_u64_field, schema_builder_new, IndexRecord, Schema,
};
use tantivy_ex::value::TypedValue;

// Fields by position: 0 title (tokenized, positions), 1 count, 2 delta,
// 3 price, 4 tags.
fn schema() -> Schema {
    let s = schema_builder_new();
    let s = schema_add_text_field(&s, "title", "FAST_STORED").unwrap();
    let s = schema_add_u64_field(&s, "count", "INDEXED").unwrap();
    let s = schema_add_i64_field(&s, "delta", "INDEXED").unwrap();
    let s = schema_add_f64_field(&s, "price", "INDEXED").unwrap();
    schema_add_facet_field(&s, "tags", "").unwrap()
}

fn word(field: u32, w: &str) -> Term {
    Term { field, value: TypedValue::Str(w.to_string()) }
}

fn exact(term: Term) -> Query {
    Query::Term { term, record: IndexRecord::Basic }
}

fn term(field: &str, value: &str) -> QueryDescriptor {
    QueryDescriptor::Term { field: field.into(), value: value.into() }
}

#[test]
fn quick_fox_on_a_title_with_positions() {
    assert_eq!(
        compile_query(&schema(), &term("title", "Quick Fox")),
        Ok(Query::Boolean {
            clauses: vec![(Occur::Must, exact(word(0, "quick"))), (Occur::Must, exact(word(0, "fox")))]
        })
    );
}

#[test]
fn every_description_compiles_to_its_query() {
    let s = schema();
    let compile = |d: QueryDescriptor| compile_query(&s, &d);
    assert_eq!(
        compile(QueryDescriptor::Phrase { field: "title".into(), terms: vec!["a".into(), "b".into()] }),
        Ok(Query::Phrase { terms: vec![word(0, "a"), word(0, "b")] })
    );
    assert_eq!(
        compile(QueryDescriptor::RangeU64 { field: "count".into(), start: Some(1), end: None }),
        Ok(Query::Range { field: 1, lower: Some(TypedValue::U64(1)), upper: None })
    );
    assert_eq!(
        compile(QueryDescriptor::RangeI64 { field: "delta".into(), start: None, end: Some(-1) }),
        Ok(Query::Range { field: 2, lower: None, upper: Some(TypedValue::I64(-1)) })
    );
    assert_eq!(
        compile(QueryDescriptor::RangeF64 { field: "price".into(), start: Some("0.5".into()), end: None }),
        Ok(Query::Range { field: 3, lower: Some(TypedValue::F64("0.5".into())), upper: None })
    );
    assert_eq!(
        compile(QueryDescriptor::Fuzzy { field: "title".into(), value: "fxo".into(), distance: 1, prefix: false }),
        Ok(Query::Fuzzy { term: word(0, "fxo"), distance: 1, prefix: false })
    );
    assert_eq!(
        compile(QueryDescriptor::Regex { field: "title".into(), pattern: "f.x".into() }),
        Ok(Query::Regex { field: 0, pattern: "f.x".into() })
    );
    assert_eq!(
        compile(QueryDescriptor::Wildcard { field: "title".into(), pattern: "f?x*".into() }),
        Ok(Query::Regex { field: 0, pattern: "f.x.*".into() })
    );
    assert_eq!(
        compile(QueryDescriptor::PhrasePrefix { field: "title".into(), terms: vec!["qu".into()], max_expansions: 9 }),
        Ok(Query::PhrasePrefix { terms: vec![word(0, "qu")], max_expansions: 9 })
    );
    assert_eq!(
        compile(QueryDescriptor::Exists { field: "title".into() }),
        Ok(Query::Exists { field_name: "title".into() })
    );
    assert_eq!(compile(QueryDescriptor::All), Ok(Query::All));
    assert_eq!(compile(QueryDescriptor::Empty), Ok(Query::Empty));
    assert_eq!(
        compile(QueryDescriptor::FacetTerm { field: "tags".into(), path: "/a".into() }),
        Ok(exact(Term { field: 4, value: TypedValue::Facet("a".into()) }))
    );
    assert_eq!(
        compile(QueryDescriptor::MoreLikeThis {
            doc_json: r#"{"count": 2}"#.into(),
            min_doc_frequency: Some(1),
            max_doc_frequency: None,
            min_term_frequency: None,
            max_query_terms: None,
            min_word_length: None,
            max_word_length: None,
            boost_factor: None,
        }),
        Ok(Query::MoreLikeThis {
            seed: vec![(1, vec![TypedValue::U64(2)])],
            params: MoreLikeThisParams {
                min_doc_frequency: Some(1),
                max_doc_frequency: None,
                min_term_frequency: None,
                max_query_terms: None,
                min_word_length: None,
                max_word_length: None,
                boost_factor: None,
            }
        })
    );
}

#[test]
fn boolean_compiles_its_clauses_in_order() {
    let d = QueryDescriptor::Boolean {
        must: vec![term("title", "a")],
        should: vec![
            QueryDescriptor::All,
            QueryDescriptor::Boolean { must: vec![], should: vec![], must_not: vec![term("count", "3")] },
        ],
        must_not: vec![QueryDescriptor::Empty],
    };
    assert_eq!(
        compile_query(&schema(), &d),
        Ok(Query::Boolean {
            clauses: vec![
                (Occur::Must, exact(word(0, "a"))),
                (Occur::Should, Query::All),
                (
                    Occur::Should,
                    Query::Boolean {
                        clauses: vec![(Occur::MustNot, exact(Term { field: 1, value: TypedValue::U64(3) }))]
                    }
                ),
                (Occur::MustNot, Query::Empty),
            ]
        })
    );
}

#[test]
fn first_failing_clause_decides() {
    let missing = |name: &str| QueryError::FieldNotFound { field: name.to_string() };
    let d = QueryDescriptor::Boolean {
        must: vec![term("title", "a")],
        should: vec![term("x", "1"), term("y", "1")],
        must_not: vec![term("z", "1")],
    };
    assert_eq!(compile_query(&schema(), &d), Err(missing("x")));
    let d = QueryDescriptor::Boolean {
        must: vec![],
        should: vec![],
        must_not: vec![QueryDescriptor::Phrase { field: "title".into(), terms: vec![] }],
    };
    assert_eq!(
        compile_query(&schema(), &d),
        Err(QueryError::InvalidDescriptor {
            field: "title".into(),
            reason: Fault::TooFewTerms { given: 0, needed: 2 }
        })
    );
    assert_eq!(compile_queries(&schema(), &vec![]), Ok(vec![]));
    assert_eq!(
        compile_queries(&schema(), &vec![QueryDescriptor::All, term("q", "1"), term("r", "1")]),
        Err(missing("q"))
    );
}

#[test]
fn terms_are_extracted_in_order_and_once() {
    let q = compile_query(
        &schema(),
        &QueryDescriptor::Boolean {
            must: vec![term("title", "Quick brown FOX"), term("count", "42")],
            should: vec![term("title", "fox"), term("delta", "-7"), term("price", "9.5")],
            must_not: vec![QueryDescriptor::Phrase { field: "title".into(), terms: vec!["ant".into(), "Zebra".into()] }],
        },
    )
    .unwrap();
    assert_eq!(query_extract_terms(&q), vec!["-7", "42", "9.5", "Zebra", "ant", "brown", "fox", "quick"]);
}

#[test]
fn extraction_says_when_there_is_nothing() {
    assert_eq!(query_extract_terms(&Query::All), vec!["no_terms_found"]);
    assert_eq!(query_extract_terms(&Query::Boolean { clauses: vec![] }), vec!["no_terms_found"]);
    assert_eq!(query_extract_terms(&Query::Phrase { terms: vec![] }), vec!["no_terms_found"]);
    assert_eq!(
        query_extract_terms(&Query::Regex { field: 0, pattern: "a".into() }),
        vec!["no_terms_found"]
    );
    assert_eq!(
        query_extract_terms(&Query::Fuzzy { term: word(0, "a"), distance: 1, prefix: false }),
        vec!["no_terms_found"]
    );
    assert_eq!(query_extract_terms(&exact(word(0, ""))), vec!["terms_found_but_not_decoded"]);
    assert_eq!(
        query_extract_terms(&exact(Term { field: 0, value: TypedValue::Bool(true) })),
        vec!["terms_found_but_not_decoded"]
    );
    assert_eq!(
        query_extract_terms(&exact(Term { field: 0, value: TypedValue::Bytes(vec![0xff]) })),
        vec!["terms_found_but_not_decoded"]
    );
    assert_eq!(
        query_extract_terms(&exact(Term { field: 0, value: TypedValue::Bytes(vec![]) })),
        vec!["terms_found_but_not_decoded"]
    );
}

#[test]
fn extraction_reads_bytes_as_text() {
    assert_eq!(
        query_extract_terms(&Query::PhrasePrefix {
            terms: vec![
                Term { field: 0, value: TypedValue::Bytes("héllo".as_bytes().to_vec()) },
                word(0, "a"),
                Term { field: 0, value: TypedValue::Bytes(vec![0xc3]) },
                word(0, "b"),
                word(0, "a"),
                word(0, "ab"),
            ],
            max_expansions: 1
        }),
        vec!["a", "ab", "b", "héllo"]
    );
}
