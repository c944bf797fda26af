use tantivy_ex::custom_collector::{
    custom_collector_create_aggregation, custom_collector_create_filtering, parse_filter_operator,
    parse_filter_value, AggregationType, FilterCriterion, FilterOperator, FilterValue,
};
use tantivy_ex::index_warming::{
    index_warming_add_preload_queries, index_warming_clear_cache, index_warming_configure,
    index_warming_evict_cache, index_warming_get_stats, CachedEntry, EvictionPolicy, WarmingConfig,
    WarmingStats, WarmingStrategy,
};
use tantivy_ex::merge_policy::{index_writer_merge_segments, merge_request_checked};
use tantivy_ex::reader_manager::{
    estimate_reader_memory_usage, reader_manager_configure_monitoring, reader_manager_create_policy,
    reader_manager_create_reader, reader_manager_get_reader_health, reader_manager_record_search,
    reader_manager_reload_reader, MonitoringConfig, ReaderEvent, ReaderPolicy, ReaderPolicyType,
};
use tantivy_ex::space_analysis::{
    analyze_storage_breakdown, estimate_index_size, estimate_merge_savings, space_analysis_compare,
    space_analysis_configure, space_analysis_get_recommendations, AnalysisConfig, IndexMetadata,
    SpaceAdvice, SpaceDifference, StorageBreakdown,
};

#[test]
fn reader_memory_estimate_is_fifty_mebibytes() {
    assert_eq!(estimate_reader_memory_usage(), 50 * 1024 * 1024);
}

#[test]
fn default_policy_and_monitoring() {
    let p = ReaderPolicy::default();
    assert_eq!(
        p,
        ReaderPolicy {
            name: "default".into(),
            policy_type: ReaderPolicyType::Periodic { interval_seconds: 60 },
            max_age_seconds: 300,
            check_interval_seconds: 10,
            auto_reload: true,
            background_reload: true,
            preload_segments: false,
        }
    );
    assert_eq!(
        MonitoringConfig::default(),
        MonitoringConfig {
            track_usage_stats: true,
            track_performance: true,
            log_reload_events: true,
            alert_on_slow_reloads: true,
            slow_reload_threshold_ms: 1000,
        }
    );
    let mut config = MonitoringConfig::default();
    reader_manager_configure_monitoring(&mut config, false, true, false, true, 5);
    assert_eq!(
        config,
        MonitoringConfig {
            track_usage_stats: false,
            track_performance: true,
            log_reload_events: false,
            alert_on_slow_reloads: true,
            slow_reload_threshold_ms: 5,
        }
    );
    let event = ReaderEvent::Reloaded { reader_id: "r".into(), timestamp: 1, duration_ms: 2 };
    assert_eq!(event, ReaderEvent::Reloaded { reader_id: "r".into(), timestamp: 1, duration_ms: 2 });
}

#[test]
fn policies_by_word() {
    let kind = |word: &str| reader_manager_create_policy("p", word, 301, 7, true, false, true).map(|p| p.policy_type);
    assert_eq!(kind("manual"), Some(ReaderPolicyType::Manual));
    assert_eq!(kind("periodic"), Some(ReaderPolicyType::Periodic { interval_seconds: 7 }));
    assert_eq!(kind("on_change"), Some(ReaderPolicyType::OnChange { check_interval_seconds: 7 }));
    assert_eq!(kind("hybrid"), Some(ReaderPolicyType::Hybrid { periodic_seconds: 150, change_check_seconds: 7 }));
    assert_eq!(kind("smart"), Some(ReaderPolicyType::Smart { max_age_seconds: 301, min_interval_seconds: 7 }));
    assert_eq!(kind("Manual"), None);
    assert_eq!(kind(""), None);
    assert_eq!(
        reader_manager_create_policy("p", "manual", 301, 7, true, false, true),
        Some(ReaderPolicy {
            name: "p".into(),
            policy_type: ReaderPolicyType::Manual,
            max_age_seconds: 301,
            check_interval_seconds: 7,
            auto_reload: true,
            background_reload: false,
            preload_segments: true,
        })
    );
}

#[test]
fn reader_statistics() {
    let mut stats = reader_manager_create_reader("r1", "default", 1000);
    assert_eq!(stats.reader_id, "r1");
    assert_eq!(stats.policy_name, "default");
    assert_eq!((stats.creation_time, stats.last_reload_time), (1000, 1000));
    assert_eq!(stats.memory_usage_bytes, 52_428_800);
    reader_manager_record_search(&mut stats, 30);
    reader_manager_record_search(&mut stats, 50);
    assert_eq!((stats.search_count, stats.total_search_time_ms), (2, 80));
    reader_manager_reload_reader(&mut stats, 1200);
    assert_eq!((stats.reload_count, stats.last_reload_time, stats.creation_time), (1, 1200, 1000));
    stats.search_count = u64::MAX;
    stats.total_search_time_ms = u64::MAX - 1;
    stats.reload_count = u64::MAX;
    reader_manager_record_search(&mut stats, 5);
    reader_manager_reload_reader(&mut stats, 1300);
    assert_eq!((stats.search_count, stats.total_search_time_ms, stats.reload_count), (u64::MAX, u64::MAX, u64::MAX));
}

#[test]
fn reader_health() {
    let mut stats = reader_manager_create_reader("r1", "default", 1000);
    let fresh = reader_manager_get_reader_health(&stats, 1100);
    assert!(fresh.is_healthy);
    assert_eq!((fresh.age_seconds, fresh.last_reload_seconds_ago), (100, 100));
    assert_eq!(fresh.recommendations, Vec::<String>::new());
    assert_eq!(reader_manager_get_reader_health(&stats, 1300).recommendations, Vec::<String>::new());
    let idle = reader_manager_get_reader_health(&stats, 1301);
    assert!(idle.is_healthy);
    assert_eq!(idle.recommendations, vec!["Consider reloading - reader is over 5 minutes old"]);
    assert!(reader_manager_get_reader_health(&stats, 1599).is_healthy);
    assert!(!reader_manager_get_reader_health(&stats, 1600).is_healthy);
    let back = reader_manager_get_reader_health(&stats, 900);
    assert_eq!((back.age_seconds, back.last_reload_seconds_ago), (0, 0));
    stats.search_count = 2;
    stats.total_search_time_ms = 200;
    assert_eq!(reader_manager_get_reader_health(&stats, 1000).recommendations, Vec::<String>::new());
    stats.total_search_time_ms = 201;
    let slow = reader_manager_get_reader_health(&stats, 1000);
    assert!(slow.is_healthy);
    assert_eq!(slow.recommendations, vec!["High search latency - consider optimizing index"]);
    stats.total_search_time_ms = 399;
    assert!(reader_manager_get_reader_health(&stats, 1000).is_healthy);
    stats.total_search_time_ms = 400;
    assert!(!reader_manager_get_reader_health(&stats, 1000).is_healthy);
    stats.memory_usage_bytes = 1024 * 1024 * 1024;
    assert_eq!(reader_manager_get_reader_health(&stats, 1000).recommendations.len(), 1);
    stats.memory_usage_bytes = 1024 * 1024 * 1024 + 1;
    assert_eq!(
        reader_manager_get_reader_health(&stats, 2000).recommendations,
        vec![
            "Consider reloading - reader is over 5 minutes old",
            "High search latency - consider optimizing index",
            "High memory usage - monitor for memory leaks",
        ]
    );
    stats.search_count = u64::MAX;
    stats.total_search_time_ms = u64::MAX;
    assert!(reader_manager_get_reader_health(&stats, 1000).is_healthy);
}

#[test]
fn warming_defaults_and_configuration() {
    let mut config = WarmingConfig::default();
    assert_eq!(
        config,
        WarmingConfig {
            cache_size_limit: 256 * 1024 * 1024,
            ttl_seconds: 3600,
            preload_queries: vec![],
            warming_strategy: WarmingStrategy::Lazy,
            eviction_policy: EvictionPolicy::LRU,
            background_warming: true,
        }
    );
    assert_eq!(
        WarmingStats::default(),
        WarmingStats {
            cache_hits: 0,
            cache_misses: 0,
            evictions: 0,
            warming_operations: 0,
            total_warming_time_ms: 0,
            memory_usage_bytes: 0
        }
    );
    index_warming_add_preload_queries(&mut config, vec!["a".into(), "b".into()]);
    index_warming_add_preload_queries(&mut config, vec!["c".into()]);
    assert!(index_warming_configure(&mut config, 2, 60, "eager", "ttl", false));
    assert_eq!(
        config,
        WarmingConfig {
            cache_size_limit: 2 * 1024 * 1024,
            ttl_seconds: 60,
            preload_queries: vec!["a".into(), "b".into(), "c".into()],
            warming_strategy: WarmingStrategy::Eager,
            eviction_policy: EvictionPolicy::TTL,
            background_warming: false,
        }
    );
    assert!(!index_warming_configure(&mut config, 3, 61, "hasty", "ttl", true));
    assert!(!index_warming_configure(&mut config, 3, 61, "lazy", "fifo", true));
    assert!(!index_warming_configure(&mut config, usize::MAX, 61, "lazy", "lru", true));
    assert_eq!(config.cache_size_limit, 2 * 1024 * 1024);
    assert_eq!(config.ttl_seconds, 60);
    assert!(index_warming_configure(&mut config, 0, 0, "scheduled", "lfu", true));
    assert_eq!((config.warming_strategy, config.eviction_policy), (WarmingStrategy::Scheduled, EvictionPolicy::LFU));
    assert!(index_warming_configure(&mut config, 0, 0, "predictive", "size", true));
    assert_eq!((config.warming_strategy, config.eviction_policy), (WarmingStrategy::Predictive, EvictionPolicy::Size));
}

#[test]
fn eviction_by_policy() {
    let second = 1_000_000_000u128;
    let entries = vec![
        CachedEntry { age_nanos: 61 * second, idle_nanos: second, size_bytes: 100 },
        CachedEntry { age_nanos: 60 * second, idle_nanos: 60 * second + 1, size_bytes: 30 },
        CachedEntry { age_nanos: 60 * second + 1, idle_nanos: 0, size_bytes: 500 },
    ];
    let mut config = WarmingConfig::default();
    let mut stats = WarmingStats { memory_usage_bytes: 550, evictions: 1, ..WarmingStats::default() };
    assert!(index_warming_configure(&mut config, 1, 60, "lazy", "ttl", true));
    assert_eq!(index_warming_evict_cache(&config, &mut stats, &entries, false), vec![true, false, true]);
    assert_eq!((stats.evictions, stats.memory_usage_bytes), (3, 0));
    assert!(index_warming_configure(&mut config, 1, 60, "lazy", "lru", true));
    stats.memory_usage_bytes = 550;
    assert_eq!(index_warming_evict_cache(&config, &mut stats, &entries, false), vec![false, true, false]);
    assert_eq!((stats.evictions, stats.memory_usage_bytes), (4, 520));
    assert!(index_warming_configure(&mut config, 1, 60, "lazy", "size", true));
    assert_eq!(index_warming_evict_cache(&config, &mut stats, &entries, false), vec![false, false, false]);
    assert_eq!((stats.evictions, stats.memory_usage_bytes), (4, 520));
    assert_eq!(index_warming_evict_cache(&config, &mut stats, &entries, true), vec![true, true, true]);
    assert_eq!((stats.evictions, stats.memory_usage_bytes), (7, 0));
    stats.evictions = u64::MAX - 1;
    index_warming_evict_cache(&config, &mut stats, &entries, true);
    assert_eq!(stats.evictions, u64::MAX);
    assert_eq!(index_warming_evict_cache(&config, &mut stats, &vec![], true), Vec::<bool>::new());
}

#[test]
fn warming_statistics() {
    let mut stats = WarmingStats::default();
    assert_eq!(index_warming_get_stats(&stats), 0);
    stats.warming_operations = 4;
    stats.total_warming_time_ms = 10;
    assert_eq!(index_warming_get_stats(&stats), 2);
    stats.memory_usage_bytes = 9;
    stats.evictions = 1;
    index_warming_clear_cache(&mut stats, 3);
    assert_eq!((stats.evictions, stats.memory_usage_bytes), (4, 0));
    stats.evictions = u64::MAX;
    index_warming_clear_cache(&mut stats, 3);
    assert_eq!(stats.evictions, u64::MAX);
}

#[test]
fn storage_is_broken_down_by_share() {
    assert_eq!(
        analyze_storage_breakdown(&vec![1_048_576, 1_048_576, 304_848]),
        StorageBreakdown {
            postings: 800_666,
            term_dictionary: 400_333,
            fast_fields: 400_333,
            field_norms: 200_166,
            stored_fields: 400_333,
            positions: 200_166,
            delete_bitset: 100_083,
            other: 100_083,
        }
    );
    let none = analyze_storage_breakdown(&vec![]);
    assert_eq!((none.postings, none.other), (0, 0));
    let full = analyze_storage_breakdown(&vec![u64::MAX, 1, u64::MAX]);
    assert_eq!(full.postings, u64::MAX / 3);
    assert_eq!(full.other, u64::MAX / 24);
    assert_eq!(estimate_index_size(), 10 * 1024 * 1024);
}

#[test]
fn space_advice() {
    assert_eq!(estimate_merge_savings(5, 1000), 0);
    assert_eq!(estimate_merge_savings(6, 1000), 100);
    assert_eq!(estimate_merge_savings(6, 9), 0);
    let metadata = |total_docs: u64, deleted_docs: u64| IndexMetadata {
        total_docs,
        deleted_docs,
        schema_size_bytes: 1024,
        num_fields: 2,
        index_settings: vec![],
    };
    assert_eq!(space_analysis_get_recommendations(10, 1000, &metadata(100, 10)), vec![]);
    assert_eq!(
        space_analysis_get_recommendations(11, 1000, &metadata(100, 10)),
        vec![SpaceAdvice::MergeSegments { potential_savings_bytes: 100 }]
    );
    assert_eq!(space_analysis_get_recommendations(1, 1000, &metadata(100, 11)), vec![SpaceAdvice::OptimizeDeletes]);
    assert_eq!(
        space_analysis_get_recommendations(20, 50, &metadata(0, 1)),
        vec![SpaceAdvice::MergeSegments { potential_savings_bytes: 5 }, SpaceAdvice::OptimizeDeletes]
    );
    assert_eq!(space_analysis_get_recommendations(1, 1000, &metadata(0, 0)), vec![]);
    assert_eq!(
        space_analysis_get_recommendations(1, 1000, &metadata(u64::MAX, u64::MAX)),
        vec![SpaceAdvice::OptimizeDeletes]
    );
}

#[test]
fn analyses_are_compared() {
    assert_eq!(
        space_analysis_compare(100, 3, 50, 70, 5, 50),
        SpaceDifference { size_difference_bytes: -30, segment_difference: 2, document_difference: 0 }
    );
    assert_eq!(
        space_analysis_compare(u64::MAX, 0, 0, 0, 0, u64::MAX),
        SpaceDifference {
            size_difference_bytes: -(u64::MAX as i128),
            segment_difference: 0,
            document_difference: u64::MAX as i128
        }
    );
    let mut config = AnalysisConfig::default();
    assert_eq!(
        config,
        AnalysisConfig { include_file_details: true, include_field_breakdown: true, cache_results: true, cache_ttl_seconds: 300 }
    );
    space_analysis_configure(&mut config, false, true, false, 9);
    assert_eq!(
        config,
        AnalysisConfig { include_file_details: false, include_field_breakdown: true, cache_results: false, cache_ttl_seconds: 9 }
    );
}

#[test]
fn filters_are_read() {
    assert_eq!(parse_filter_operator("equals"), Some(FilterOperator::Equals));
    assert_eq!(parse_filter_operator("gt"), Some(FilterOperator::GreaterThan));
    assert_eq!(parse_filter_operator("lt"), Some(FilterOperator::LessThan));
    assert_eq!(parse_filter_operator("contains"), Some(FilterOperator::Contains));
    assert_eq!(parse_filter_operator("regex"), Some(FilterOperator::Regex));
    assert_eq!(parse_filter_operator("ge"), None);
    assert_eq!(parse_filter_value("1.5"), FilterValue::Number("1.5".into()));
    assert_eq!(parse_filter_value("7"), FilterValue::Number("7".into()));
    assert_eq!(parse_filter_value("nan"), FilterValue::Number("nan".into()));
    assert_eq!(parse_filter_value("true"), FilterValue::Boolean(true));
    assert_eq!(parse_filter_value("false"), FilterValue::Boolean(false));
    assert_eq!(parse_filter_value("True"), FilterValue::Text("True".into()));
    assert_eq!(parse_filter_value(""), FilterValue::Text(String::new()));
    let spec = |f: &str, o: &str, v: &str| (f.to_string(), o.to_string(), v.to_string());
    assert_eq!(
        custom_collector_create_filtering(&vec![spec("price", "gt", "10"), spec("name", "contains", "fox")]),
        Some(vec![
            FilterCriterion {
                field: "price".into(),
                operator: FilterOperator::GreaterThan,
                value: FilterValue::Number("10".into())
            },
            FilterCriterion {
                field: "name".into(),
                operator: FilterOperator::Contains,
                value: FilterValue::Text("fox".into())
            },
        ])
    );
    assert_eq!(custom_collector_create_filtering(&vec![]), Some(vec![]));
    assert_eq!(custom_collector_create_filtering(&vec![spec("a", "equals", "1"), spec("b", "near", "2")]), None);
}

#[test]
fn summaries_are_read() {
    let spec = |n: &str, k: &str, f: &str| (n.to_string(), k.to_string(), f.to_string());
    assert_eq!(
        custom_collector_create_aggregation(&vec![
            spec("n", "count", "ignored"),
            spec("s", "sum", "price"),
            spec("a", "average", "price"),
            spec("lo", "min", "price"),
            spec("hi", "max", "price"),
        ]),
        Some(vec![
            ("n".to_string(), AggregationType::Count),
            ("s".to_string(), AggregationType::Sum { field: "price".into() }),
            ("a".to_string(), AggregationType::Average { field: "price".into() }),
            ("lo".to_string(), AggregationType::Min { field: "price".into() }),
            ("hi".to_string(), AggregationType::Max { field: "price".into() }),
        ])
    );
    assert_eq!(custom_collector_create_aggregation(&vec![spec("m", "median", "price")]), None);
}

#[test]
fn merges_need_segments_that_exist_by_name() {
    let id = "a5c4dfcbdfe645089129e308e26d5523".to_string();
    assert!(index_writer_merge_segments(&vec![id.clone()]));
    assert!(index_writer_merge_segments(&vec![id.clone(), "00000000000000000000000000000000".to_string()]));
    assert!(!index_writer_merge_segments(&vec![]));
    assert!(!index_writer_merge_segments(&vec![id.clone(), "segment_0".to_string()]));
    assert!(!index_writer_merge_segments(&vec!["a5c4".to_string()]));
    assert!(merge_request_checked(&vec![true, true]));
    assert!(!merge_request_checked(&vec![true, false]));
    assert!(!merge_request_checked(&vec![]));
}
