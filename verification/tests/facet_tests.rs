use tantivy_ex::coerce::{convert_json_value_to_btreemap, CoercionError};
use tantivy_ex::compile::Fault;
use tantivy_ex::custom_collector::{
    custom_collector_create_scoring_function, AggregationCollector, CollectionResult,
    FilteringCollector, ScoringType, TopKCollector,
};
use tantivy_ex::facet::{
    facet_collector_add_facet, facet_collector_for_field, facet_search, insert_facet_hierarchically,
    FacetCollectorPlan,
};
use tantivy_ex::value::{DynValue, TypedValue};

#[test]
fn collector_counts_below_the_facets_that_are_added() {
    let mut collector = facet_collector_for_field("tags");
    assert_eq!(collector, FacetCollectorPlan { field_name: "tags".into(), facets: vec![] });
    assert_eq!(facet_collector_add_facet(&mut collector, "/a"), Ok(()));
    assert_eq!(facet_collector_add_facet(&mut collector, "b"), Err(Fault::FacetPath { path: "b".into() }));
    assert_eq!(facet_collector_add_facet(&mut collector, ""), Err(Fault::FacetPath { path: String::new() }));
    assert_eq!(facet_collector_add_facet(&mut collector, "/c/d"), Ok(()));
    assert_eq!(
        collector,
        FacetCollectorPlan { field_name: "tags".into(), facets: vec!["a".into(), "c\u{0}d".into()] }
    );
}

#[test]
fn counts_stand_under_their_paths() {
    let mut result = vec![];
    insert_facet_hierarchically(&mut result, "/a/b", 3);
    insert_facet_hierarchically(&mut result, "c", 1);
    insert_facet_hierarchically(&mut result, "/", 9);
    insert_facet_hierarchically(&mut result, "", 9);
    insert_facet_hierarchically(&mut result, "//", 9);
    insert_facet_hierarchically(&mut result, "/a/b", 4);
    assert_eq!(
        result,
        vec![("/a/b".to_string(), DynValue::Unsigned(4)), ("/c".to_string(), DynValue::Unsigned(1))]
    );
    assert_eq!(
        facet_search(&vec![("/x".to_string(), 2), ("/".to_string(), 5), ("/y/z".to_string(), 0)]),
        DynValue::Object(vec![
            ("/x".to_string(), DynValue::Unsigned(2)),
            ("/y/z".to_string(), DynValue::Unsigned(0)),
        ])
    );
    assert_eq!(facet_search(&vec![]), DynValue::Object(vec![]));
}

#[test]
fn entries_of_an_object_are_converted() {
    let object = DynValue::Object(vec![
        ("a".to_string(), DynValue::Unsigned(1)),
        ("b".to_string(), DynValue::List(vec![DynValue::Str("x".into())])),
    ]);
    assert_eq!(
        convert_json_value_to_btreemap(&object),
        Ok(vec![
            ("a".to_string(), TypedValue::I64(1)),
            ("b".to_string(), TypedValue::Array(vec![TypedValue::Str("x".into())])),
        ])
    );
    assert_eq!(convert_json_value_to_btreemap(&DynValue::Str("x".into())), Ok(vec![]));
    assert_eq!(convert_json_value_to_btreemap(&DynValue::Null), Ok(vec![]));
    assert_eq!(
        convert_json_value_to_btreemap(&DynValue::Object(vec![("a".to_string(), DynValue::Float("?".into()))])),
        Err(CoercionError::InvalidNumber)
    );
}

#[test]
fn scorings_by_word() {
    let pair = |k: &str, v: &str| (k.to_string(), v.to_string());
    assert_eq!(
        custom_collector_create_scoring_function("bm25", &vec![]),
        Some(ScoringType::BM25 { k1: "1.2".into(), b: "0.75".into() })
    );
    assert_eq!(
        custom_collector_create_scoring_function(
            "bm25",
            &vec![pair("b", "0.5"), pair("k1", "2"), pair("b", "0.9"), pair("x", "1")]
        ),
        Some(ScoringType::BM25 { k1: "2".into(), b: "0.5".into() })
    );
    assert_eq!(
        custom_collector_create_scoring_function("tfidf", &vec![pair("normalize", "0")]),
        Some(ScoringType::TFIDF { normalize: Some("0".into()) })
    );
    assert_eq!(
        custom_collector_create_scoring_function("tfidf", &vec![]),
        Some(ScoringType::TFIDF { normalize: None })
    );
    assert_eq!(
        custom_collector_create_scoring_function("custom", &vec![pair("k1", "2")]),
        Some(ScoringType::Custom { formula: "score * boost".into() })
    );
    assert_eq!(custom_collector_create_scoring_function("pagerank", &vec![]), None);
}

#[test]
fn collectors_tell_what_they_found() {
    let top = TopKCollector { name: "t".into(), k: 2, results: vec![(4, "1.5".into()), (9, "1.0".into())] };
    assert_eq!(
        top.get_results(),
        CollectionResult {
            result_type: "top_k".into(),
            document_scores: vec![(4, "1.5".into()), (9, "1.0".into())],
            aggregations: vec![],
            metadata: vec![],
            total_hits: 2,
            collection_time_ms: 0,
        }
    );
    let sums = AggregationCollector {
        name: "a".into(),
        aggregations: vec![],
        results: vec![("sum".into(), "10".into())],
        doc_count: 7,
    };
    assert_eq!(
        sums.get_results(),
        CollectionResult {
            result_type: "aggregation".into(),
            document_scores: vec![],
            aggregations: vec![("sum".into(), "10".into())],
            metadata: vec![],
            total_hits: 7,
            collection_time_ms: 0,
        }
    );
    let filter = FilteringCollector {
        name: "f".into(),
        filter_criteria: vec![],
        collected_docs: vec![1, 2, 3],
        metadata: vec![("k".into(), "v".into())],
    };
    assert_eq!(
        filter.get_results(),
        CollectionResult {
            result_type: "filtering".into(),
            document_scores: vec![],
            aggregations: vec![],
            metadata: vec![("k".into(), "v".into())],
            total_hits: 3,
            collection_time_ms: 0,
        }
    );
}
