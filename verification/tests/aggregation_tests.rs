use tantivy_ex::agg_compile::{
    build_tantivy_aggregations, compile_aggregations, Aggregation, AggregationVariant,
};
use tantivy_ex::agg_request::{parse_aggregation_requests, parse_single_aggregation};
use tantivy_ex::agg_result::{
    convert_aggregation_result_to_json, convert_key_to_json, convert_metric_result_to_json,
    run_search_with_aggregations, AggregationResult, BucketEntry, BucketResult, Key, MetricResult,
    RangeBucketEntry, StatsResult,
};
use tantivy_ex::aggregation::{
    AggregationError, AggregationOptions, AggregationRequest, AggregationType, Parameter, RangeSpec,
};
use tantivy_ex::document::Document;
use tantivy_ex::json::parse_json;
use tantivy_ex::schema::{
    schema_add_f64_field, schema_add_text_field, schema_add_u64_field, schema_builder_new, Schema,
};
use tantivy_ex::value::{DynValue, TypedValue};

fn schema() -> Schema {
    let s = schema_builder_new();
    let s = schema_add_text_field(&s, "category", "FAST").unwrap();
    let s = schema_add_f64_field(&s, "price", "FAST").unwrap();
    schema_add_u64_field(&s, "stock", "FAST").unwrap()
}

fn text(s: &str) -> DynValue {
    DynValue::Str(s.to_string())
}

fn object(entries: Vec<(&str, DynValue)>) -> DynValue {
    DynValue::Object(entries.into_iter().map(|(k, v)| (k.to_string(), v)).collect())
}

fn request(name: &str, kind: AggregationType, field: &str, subs: Vec<AggregationRequest>) -> AggregationRequest {
    AggregationRequest {
        name: name.to_string(),
        aggregation_type: kind,
        field: field.to_string(),
        sub_aggregations: subs,
        options: AggregationOptions::default(),
    }
}

const BY_CATEGORY: &str =
    r#"{"by_cat":{"terms":{"field":"category","size":5},"aggs":{"avg_price":{"avg":{"field":"price"}}}}}"#;

fn by_category() -> Vec<AggregationRequest> {
    vec![request(
        "by_cat",
        AggregationType::Terms { size: Some(5) },
        "category",
        vec![request("avg_price", AggregationType::Avg, "price", vec![])],
    )]
}

#[test]
fn reads_a_request_with_an_aggregation_inside() {
    assert_eq!(parse_aggregation_requests(BY_CATEGORY), Ok(by_category()));
}

#[test]
fn compiles_terms_with_average_inside() {
    let (requests, aggregations) = compile_aggregations(&schema(), BY_CATEGORY).unwrap();
    assert_eq!(requests, by_category());
    assert_eq!(
        aggregations,
        vec![Aggregation {
            name: "by_cat".into(),
            agg: AggregationVariant::Terms { field: "category".into(), size: 5, min_doc_count: 1 },
            sub_aggregation: vec![Aggregation {
                name: "avg_price".into(),
                agg: AggregationVariant::Average { field: "price".into() },
                sub_aggregation: vec![],
            }],
        }]
    );
}

#[test]
fn results_inside_a_bucket_stand_beside_its_key() {
    let result = vec![(
        "by_cat".to_string(),
        AggregationResult::BucketResult(BucketResult::Terms {
            buckets: vec![BucketEntry {
                key: Key::Str("a".into()),
                doc_count: 3,
                sub_aggregation: vec![(
                    "avg_price".to_string(),
                    AggregationResult::MetricResult(MetricResult::Average(Some("9.5".into()))),
                )],
            }],
            sum_other_doc_count: 0,
            doc_count_error_upper_bound: None,
        }),
    )];
    assert_eq!(
        convert_aggregation_result_to_json(&result, &by_category()),
        object(vec![(
            "by_cat",
            object(vec![
                ("doc_count_error_upper_bound", DynValue::Null),
                ("sum_other_doc_count", DynValue::Unsigned(0)),
                (
                    "buckets",
                    DynValue::List(vec![object(vec![
                        ("key", text("a")),
                        ("doc_count", DynValue::Unsigned(3)),
                        ("avg_price", object(vec![("value", DynValue::Float("9.5".into()))])),
                    ])])
                ),
            ])
        )])
    );
}

#[test]
fn terms_without_buckets_still_has_the_list() {
    let result = vec![(
        "by_cat".to_string(),
        AggregationResult::BucketResult(BucketResult::Terms {
            buckets: vec![],
            sum_other_doc_count: 7,
            doc_count_error_upper_bound: Some(2),
        }),
    )];
    assert_eq!(
        convert_aggregation_result_to_json(&result, &by_category()),
        object(vec![(
            "by_cat",
            object(vec![
                ("doc_count_error_upper_bound", DynValue::Unsigned(2)),
                ("sum_other_doc_count", DynValue::Unsigned(7)),
                ("buckets", DynValue::List(vec![])),
            ])
        )])
    );
}

#[test]
fn result_inside_takes_the_place_of_an_entry_of_its_name() {
    let requests = vec![request(
        "by_cat",
        AggregationType::Terms { size: None },
        "category",
        vec![request("doc_count", AggregationType::Sum, "stock", vec![])],
    )];
    let result = vec![(
        "by_cat".to_string(),
        AggregationResult::BucketResult(BucketResult::Histogram {
            buckets: vec![BucketEntry {
                key: Key::F64("10".into()),
                doc_count: 3,
                sub_aggregation: vec![
                    ("doc_count".to_string(), AggregationResult::MetricResult(MetricResult::Sum(Some("4".into())))),
                    ("stray".to_string(), AggregationResult::MetricResult(MetricResult::Sum(None))),
                ],
            }],
        }),
    )];
    assert_eq!(
        convert_aggregation_result_to_json(&result, &requests),
        object(vec![(
            "by_cat",
            object(vec![(
                "buckets",
                DynValue::List(vec![object(vec![
                    ("key", DynValue::Float("10".into())),
                    ("doc_count", object(vec![("value", DynValue::Float("4".into()))])),
                ])])
            )])
        )])
    );
}

#[test]
fn range_buckets_show_their_bounds() {
    let requests = vec![request("r", AggregationType::Range { ranges: vec![] }, "price", vec![])];
    let result = vec![(
        "r".to_string(),
        AggregationResult::BucketResult(BucketResult::Range {
            buckets: vec![
                RangeBucketEntry {
                    key: Key::Str("*-10".into()),
                    doc_count: 1,
                    sub_aggregation: vec![],
                    from: None,
                    to: Some("10".into()),
                },
                RangeBucketEntry {
                    key: Key::Str("10-20".into()),
                    doc_count: 2,
                    sub_aggregation: vec![],
                    from: Some("10".into()),
                    to: Some("20".into()),
                },
                RangeBucketEntry {
                    key: Key::Str("20-*".into()),
                    doc_count: 0,
                    sub_aggregation: vec![],
                    from: Some("20".into()),
                    to: None,
                },
            ],
        }),
    )];
    assert_eq!(
        convert_aggregation_result_to_json(&result, &requests),
        object(vec![(
            "r",
            object(vec![(
                "buckets",
                DynValue::List(vec![
                    object(vec![
                        ("to", DynValue::Float("10".into())),
                        ("key", text("*-10")),
                        ("doc_count", DynValue::Unsigned(1)),
                    ]),
                    object(vec![
                        ("from", DynValue::Float("10".into())),
                        ("to", DynValue::Float("20".into())),
                        ("key", text("10-20")),
                        ("doc_count", DynValue::Unsigned(2)),
                    ]),
                    object(vec![
                        ("from", DynValue::Float("20".into())),
                        ("key", text("20-*")),
                        ("doc_count", DynValue::Unsigned(0)),
                    ]),
                ])
            )])
        )])
    );
}

#[test]
fn result_without_a_request_is_left_out() {
    let result = vec![
        ("ghost".to_string(), AggregationResult::MetricResult(MetricResult::Count(Some("1".into())))),
        ("by_cat".to_string(), AggregationResult::MetricResult(MetricResult::Count(Some("2".into())))),
    ];
    assert_eq!(
        convert_aggregation_result_to_json(&result, &by_category()),
        object(vec![("by_cat", object(vec![("value", DynValue::Float("2".into()))]))])
    );
}

#[test]
fn metrics() {
    let value = |v: Option<&str>| match v {
        Some(t) => object(vec![("value", DynValue::Float(t.to_string()))]),
        None => object(vec![("value", DynValue::Null)]),
    };
    assert_eq!(convert_metric_result_to_json(&MetricResult::Average(Some("9.5".into()))), value(Some("9.5")));
    assert_eq!(convert_metric_result_to_json(&MetricResult::Count(Some("3".into()))), value(Some("3")));
    assert_eq!(convert_metric_result_to_json(&MetricResult::Max(None)), value(None));
    assert_eq!(convert_metric_result_to_json(&MetricResult::Min(Some("-1".into()))), value(Some("-1")));
    assert_eq!(convert_metric_result_to_json(&MetricResult::Sum(Some("0".into()))), value(Some("0")));
    assert_eq!(
        convert_metric_result_to_json(&MetricResult::Stats(StatsResult {
            count: 2,
            min: Some("1".into()),
            max: Some("3".into()),
            avg: None,
            sum: Some("4".into()),
        })),
        object(vec![
            ("count", DynValue::Unsigned(2)),
            ("min", DynValue::Float("1".into())),
            ("max", DynValue::Float("3".into())),
            ("avg", DynValue::Null),
            ("sum", DynValue::Float("4".into())),
        ])
    );
    assert_eq!(
        convert_metric_result_to_json(&MetricResult::Percentiles(vec![
            ("50.0".into(), Some("5".into())),
            ("99.0".into(), None),
            ("50.0".into(), Some("6".into())),
        ])),
        object(vec![(
            "values",
            object(vec![("50.0", DynValue::Float("6".into())), ("99.0", DynValue::Null)])
        )])
    );
    assert_eq!(
        convert_metric_result_to_json(&MetricResult::ExtendedStats),
        object(vec![("error", text("ExtendedStats not implemented yet"))])
    );
    assert_eq!(
        convert_metric_result_to_json(&MetricResult::TopHits),
        object(vec![("error", text("TopHits not implemented yet"))])
    );
    assert_eq!(
        convert_metric_result_to_json(&MetricResult::Cardinality),
        object(vec![("error", text("Cardinality not implemented yet"))])
    );
}

#[test]
fn keys() {
    assert_eq!(convert_key_to_json(&Key::Str("a".into())), text("a"));
    assert_eq!(convert_key_to_json(&Key::F64("1.5".into())), DynValue::Float("1.5".into()));
    assert_eq!(convert_key_to_json(&Key::I64(-1)), DynValue::Signed(-1));
    assert_eq!(convert_key_to_json(&Key::U64(1)), DynValue::Unsigned(1));
}

#[test]
fn every_kind_is_read_with_its_parameters() {
    let parsed = parse_aggregation_requests(
        r#"{
            "a": {"terms": {"field": "category"}},
            "b": {"histogram": {"field": "price", "interval": 10, "min_doc_count": 2, "keyed": true}},
            "c": {"histogram": {"field": "price", "interval": 2.5}},
            "d": {"date_histogram": {"field": "stock", "fixed_interval": "1d"}},
            "e": {"date_histogram": {"field": "stock", "calendar_interval": "month", "fixed_interval": "1d"}},
            "f": {"range": {"field": "price", "ranges": [{"to": 10}, {"from": 10, "to": 20.5, "key": "mid"}, {}]}},
            "g": {"min": {"field": "price", "missing": "0"}},
            "h": {"max": {"field": "price"}},
            "i": {"sum": {"field": "price"}},
            "j": {"count": {"field": "price"}},
            "k": {"stats": {"field": "price"}},
            "l": {"percentiles": {"field": "price"}},
            "m": {"percentiles": {"field": "price", "percents": [50, "x", 99.9]}},
            "n": {"avg": {"field": "price"}, "aggregations": {"o": {"max": {"field": "stock"}}}}
        }"#,
    )
    .unwrap();
    let with = |mut r: AggregationRequest, options: AggregationOptions| {
        r.options = options;
        r
    };
    let literals = |items: &[&str]| items.iter().map(|t| t.to_string()).collect::<Vec<String>>();
    assert_eq!(
        parsed,
        vec![
            request("a", AggregationType::Terms { size: None }, "category", vec![]),
            with(
                request("b", AggregationType::Histogram { interval: "10".into() }, "price", vec![]),
                AggregationOptions { min_doc_count: Some(2), missing: None, keyed: Some(true) }
            ),
            request("c", AggregationType::Histogram { interval: "2.5".into() }, "price", vec![]),
            request("d", AggregationType::DateHistogram { interval: "1d".into() }, "stock", vec![]),
            request("e", AggregationType::DateHistogram { interval: "month".into() }, "stock", vec![]),
            request(
                "f",
                AggregationType::Range {
                    ranges: vec![
                        RangeSpec { from: None, to: Some("10".into()), key: None },
                        RangeSpec { from: Some("10".into()), to: Some("20.5".into()), key: Some("mid".into()) },
                        RangeSpec { from: None, to: None, key: None },
                    ]
                },
                "price",
                vec![]
            ),
            with(
                request("g", AggregationType::Min, "price", vec![]),
                AggregationOptions { min_doc_count: None, missing: Some("0".into()), keyed: None }
            ),
            request("h", AggregationType::Max, "price", vec![]),
            request("i", AggregationType::Sum, "price", vec![]),
            request("j", AggregationType::Count, "price", vec![]),
            request("k", AggregationType::Stats, "price", vec![]),
            request(
                "l",
                AggregationType::Percentiles { percents: literals(&["1.0", "5.0", "25.0", "50.0", "75.0", "95.0", "99.0"]) },
                "price",
                vec![]
            ),
            request("m", AggregationType::Percentiles { percents: literals(&["50", "99.9"]) }, "price", vec![]),
            request("n", AggregationType::Avg, "price", vec![request("o", AggregationType::Max, "stock", vec![])]),
        ]
    );
}

fn faulty(json: &str) -> AggregationError {
    parse_aggregation_requests(json).unwrap_err()
}

#[test]
fn each_fault_of_a_request_has_its_error() {
    let name = || "a".to_string();
    assert_eq!(faulty("{oops"), AggregationError::InvalidJson);
    assert_eq!(faulty("[]"), AggregationError::NotAnObject);
    assert_eq!(faulty(r#"{"a": 1}"#), AggregationError::DefinitionNotAnObject { name: name() });
    assert_eq!(faulty(r#"{"a": {}}"#), AggregationError::NoKind { name: name() });
    assert_eq!(faulty(r#"{"a": {"aggs": {}}}"#), AggregationError::NoKind { name: name() });
    assert_eq!(
        faulty(r#"{"a": {"median": {"field": "price"}}}"#),
        AggregationError::UnknownKind { name: name(), kind: "median".into() }
    );
    assert_eq!(
        faulty(r#"{"a": {"terms": {}}}"#),
        AggregationError::MissingParameter { name: name(), parameter: Parameter::Field }
    );
    assert_eq!(
        faulty(r#"{"a": {"terms": {"field": 7}}}"#),
        AggregationError::MissingParameter { name: name(), parameter: Parameter::Field }
    );
    assert_eq!(
        faulty(r#"{"a": {"histogram": {"field": "price"}}}"#),
        AggregationError::MissingParameter { name: name(), parameter: Parameter::Interval }
    );
    assert_eq!(
        faulty(r#"{"a": {"histogram": {"field": "price", "interval": "wide"}}}"#),
        AggregationError::MissingParameter { name: name(), parameter: Parameter::Interval }
    );
    assert_eq!(
        faulty(r#"{"a": {"date_histogram": {"field": "price", "calendar_interval": 1, "fixed_interval": "1d"}}}"#),
        AggregationError::MissingParameter { name: name(), parameter: Parameter::Interval }
    );
    assert_eq!(
        faulty(r#"{"a": {"range": {"field": "price"}}}"#),
        AggregationError::MissingParameter { name: name(), parameter: Parameter::Ranges }
    );
    assert_eq!(
        faulty(r#"{"a": {"range": {"field": "price", "ranges": {}}}}"#),
        AggregationError::InvalidParameter { name: name(), parameter: Parameter::Ranges }
    );
    assert_eq!(
        faulty(r#"{"a": {"range": {"field": "price", "ranges": [{}, 5]}}}"#),
        AggregationError::InvalidParameter { name: name(), parameter: Parameter::Range }
    );
    assert_eq!(
        faulty(r#"{"z": {"avg": {"field": "price"}, "aggs": {"a": {"nope": {}}}}}"#),
        AggregationError::UnknownKind { name: name(), kind: "nope".into() }
    );
}

#[test]
fn definition_is_read_from_a_value_too() {
    let def = parse_json(r#"{"avg": {"field": "price"}, "aggs": 5}"#).unwrap();
    assert_eq!(
        parse_single_aggregation("x".to_string(), &def),
        Ok(request("x", AggregationType::Avg, "price", vec![]))
    );
}

#[test]
fn unknown_field_compiles_nothing() {
    let unknown = |name: &str, field: &str| AggregationError::UnknownField { name: name.into(), field: field.into() };
    assert_eq!(
        compile_aggregations(&schema(), r#"{"a": {"avg": {"field": "weight"}}}"#),
        Err(unknown("a", "weight"))
    );
    assert_eq!(
        compile_aggregations(
            &schema(),
            r#"{"a": {"terms": {"field": "category"}, "aggs": {"b": {"avg": {"field": "weight"}}}}}"#
        ),
        Err(unknown("b", "weight"))
    );
    assert_eq!(
        compile_aggregations(
            &schema(),
            r#"{"a": {"terms": {"field": "kind"}, "aggs": {"b": {"avg": {"field": "weight"}}}}}"#
        ),
        Err(unknown("a", "kind"))
    );
    assert_eq!(
        compile_aggregations(
            &schema(),
            r#"{"a": {"avg": {"field": "price"}}, "b": {"avg": {"field": "weight"}}, "c": {"avg": {"field": "price"}}}"#
        ),
        Err(unknown("b", "weight"))
    );
}

#[test]
fn defaults_are_filled_in() {
    let build = |kind: AggregationType, options: AggregationOptions| {
        let mut r = request("x", kind, "price", vec![]);
        r.options = options;
        build_tantivy_aggregations(&vec![r], &schema()).unwrap().remove(0).agg
    };
    let none = AggregationOptions::default;
    let set = || AggregationOptions { min_doc_count: Some(4), missing: None, keyed: Some(true) };
    let unkeyed = || AggregationOptions { min_doc_count: None, missing: None, keyed: Some(false) };
    let field = || "price".to_string();
    assert_eq!(
        build(AggregationType::Terms { size: None }, none()),
        AggregationVariant::Terms { field: field(), size: 10, min_doc_count: 1 }
    );
    assert_eq!(
        build(AggregationType::Terms { size: Some(3) }, set()),
        AggregationVariant::Terms { field: field(), size: 3, min_doc_count: 4 }
    );
    assert_eq!(
        build(AggregationType::Terms { size: Some(u64::MAX) }, none()),
        AggregationVariant::Terms { field: field(), size: u32::MAX, min_doc_count: 1 }
    );
    assert_eq!(
        build(AggregationType::Terms { size: Some(u32::MAX as u64) }, none()),
        AggregationVariant::Terms { field: field(), size: u32::MAX, min_doc_count: 1 }
    );
    assert_eq!(
        build(AggregationType::Histogram { interval: "5".into() }, none()),
        AggregationVariant::Histogram { field: field(), interval: "5".into(), min_doc_count: 1, keyed: false }
    );
    assert_eq!(
        build(AggregationType::Histogram { interval: "5".into() }, set()),
        AggregationVariant::Histogram { field: field(), interval: "5".into(), min_doc_count: 4, keyed: true }
    );
    assert_eq!(
        build(AggregationType::DateHistogram { interval: "1d".into() }, none()),
        AggregationVariant::DateHistogram { field: field(), fixed_interval: "1d".into(), min_doc_count: 1, keyed: false }
    );
    assert_eq!(
        build(
            AggregationType::Range { ranges: vec![RangeSpec { from: Some("1".into()), to: None, key: Some("k".into()) }] },
            set()
        ),
        AggregationVariant::Range {
            field: field(),
            ranges: vec![RangeSpec { from: Some("1".into()), to: None, key: Some("k".into()) }],
            keyed: true
        }
    );
    assert_eq!(build(AggregationType::Avg, none()), AggregationVariant::Average { field: field() });
    assert_eq!(build(AggregationType::Min, none()), AggregationVariant::Min { field: field() });
    assert_eq!(build(AggregationType::Max, none()), AggregationVariant::Max { field: field() });
    assert_eq!(build(AggregationType::Sum, none()), AggregationVariant::Sum { field: field() });
    assert_eq!(build(AggregationType::Count, none()), AggregationVariant::Count { field: field() });
    assert_eq!(build(AggregationType::Stats, none()), AggregationVariant::Stats { field: field() });
    assert_eq!(
        build(AggregationType::Percentiles { percents: vec!["50".into()] }, none()),
        AggregationVariant::Percentiles { field: field(), percents: vec!["50".into()], keyed: true }
    );
    assert_eq!(
        build(AggregationType::Percentiles { percents: vec![] }, unkeyed()),
        AggregationVariant::Percentiles { field: field(), percents: vec![], keyed: false }
    );
}

#[test]
fn search_and_aggregations_go_together() {
    let documents = vec![
        Document {
            field_values: vec![(0, TypedValue::Str("a".into())), (2, TypedValue::U64(1)), (2, TypedValue::U64(2))],
        },
        Document { field_values: vec![] },
    ];
    let result = vec![("n".to_string(), AggregationResult::MetricResult(MetricResult::Count(Some("2".into()))))];
    let requests = vec![request("n", AggregationType::Count, "stock", vec![])];
    assert_eq!(
        run_search_with_aggregations(&schema(), &documents, &result, &requests),
        object(vec![
            (
                "hits",
                object(vec![
                    ("total", object(vec![("value", DynValue::Unsigned(2)), ("relation", text("eq"))])),
                    (
                        "hits",
                        DynValue::List(vec![
                            object(vec![("category", text("a")), ("stock", DynValue::Unsigned(2))]),
                            object(vec![]),
                        ])
                    ),
                ])
            ),
            ("aggregations", object(vec![("n", object(vec![("value", DynValue::Float("2".into()))]))])),
        ])
    );
}

#[test]
fn a_name_that_stands_twice_in_a_text_gives_one_request() {
    assert_eq!(
        parse_aggregation_requests(
            r#"{"x":{"avg":{"field":"price"}},"x":{"max":{"field":"price"},"aggs":{"y":{"min":{"field":"stock"}},"y":{"sum":{"field":"stock"}}}}}"#
        ),
        Ok(vec![request(
            "x",
            AggregationType::Max,
            "price",
            vec![request("y", AggregationType::Sum, "stock", vec![])]
        )])
    );
}
