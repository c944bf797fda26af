//! Readers of an index: reload policies, usage statistics and health.
use vstd::prelude::*;
use crate::text::{copy_text, same_text, texts};

verus! {

/// When a reader reloads.
#[derive(Clone, Copy, Debug, PartialEq, Eq, Structural)]
pub enum ReaderPolicyType {
    Manual,
    Periodic { interval_seconds: u64 },
    OnChange { check_interval_seconds: u64 },
    Hybrid { periodic_seconds: u64, change_check_seconds: u64 },
    Smart { max_age_seconds: u64, min_interval_seconds: u64 },
}

/// A reload policy under its name.
#[derive(Debug, PartialEq)]
pub struct ReaderPolicy {
    pub name: String,
    pub policy_type: ReaderPolicyType,
    pub max_age_seconds: u64,
    pub check_interval_seconds: u64,
    pub auto_reload: bool,
    pub background_reload: bool,
    pub preload_segments: bool,
}

impl Default for ReaderPolicy {
    fn default() -> (p: ReaderPolicy)
        ensures
            p.name@ == "default"@,
            p.policy_type == (ReaderPolicyType::Periodic { interval_seconds: 60 }),
            p.max_age_seconds == 300,
            p.check_interval_seconds == 10,
            p.auto_reload,
            p.background_reload,
            !p.preload_segments,
    {
        ReaderPolicy {
            name: copy_text("default"),
            policy_type: ReaderPolicyType::Periodic { interval_seconds: 60 },
            max_age_seconds: 300,
            check_interval_seconds: 10,
            auto_reload: true,
            background_reload: true,
            preload_segments: false,
        }
    }
}

/// What is watched of the readers.
#[derive(Clone, Copy, Debug, PartialEq, Eq, Structural)]
pub struct MonitoringConfig {
    pub track_usage_stats: bool,
    pub track_performance: bool,
    pub log_reload_events: bool,
    pub alert_on_slow_reloads: bool,
    pub slow_reload_threshold_ms: u64,
}

impl Default for MonitoringConfig {
    fn default() -> (c: MonitoringConfig)
        ensures
            c == (MonitoringConfig {
                track_usage_stats: true,
                track_performance: true,
                log_reload_events: true,
                alert_on_slow_reloads: true,
                slow_reload_threshold_ms: 1000,
            }),
    {
        MonitoringConfig {
            track_usage_stats: true,
            track_performance: true,
            log_reload_events: true,
            alert_on_slow_reloads: true,
            slow_reload_threshold_ms: 1000,
        }
    }
}

/// An event in the life of a reader.
#[derive(Debug, PartialEq)]
pub enum ReaderEvent {
    Created { reader_id: String, timestamp: u64 },
    Reloaded { reader_id: String, timestamp: u64, duration_ms: u64 },
    SearchPerformed { reader_id: String, duration_ms: u64 },
    Disposed { reader_id: String, timestamp: u64 },
}

/// The usage of a reader. Times are seconds since the epoch. The average
/// search time is the total over the count.
#[derive(Debug, PartialEq)]
pub struct ReaderStats {
    pub reader_id: String,
    pub creation_time: u64,
    pub last_reload_time: u64,
    pub reload_count: u64,
    pub search_count: u64,
    pub total_search_time_ms: u64,
    pub memory_usage_bytes: u64,
    pub segment_count: usize,
    pub policy_name: String,
}

/// The health of a reader, as far as whole numbers tell it.
#[derive(Debug, PartialEq)]
pub struct ReaderHealth {
    pub reader_id: String,
    pub is_healthy: bool,
    pub age_seconds: u64,
    pub last_reload_seconds_ago: u64,
    pub recommendations: Vec<String>,
}

/// The memory that a freshly opened reader is taken to hold, in bytes.
pub const READER_MEMORY_ESTIMATE: u64 = 52_428_800;

/// Estimates the memory that a reader holds.
pub fn estimate_reader_memory_usage() -> (bytes: u64)
    ensures
        bytes == READER_MEMORY_ESTIMATE,
{
    1024 * 1024 * 50
}

/// The kind of policy that a word names, built from the two intervals. A
/// hybrid policy reloads at half the greatest age.
pub open spec fn policy_type_of(word: Seq<char>, max_age_seconds: u64, check_interval_seconds: u64) -> Option<
    ReaderPolicyType,
> {
    if word == "manual"@ {
        Some(ReaderPolicyType::Manual)
    } else if word == "periodic"@ {
        Some(ReaderPolicyType::Periodic { interval_seconds: check_interval_seconds })
    } else if word == "on_change"@ {
        Some(ReaderPolicyType::OnChange { check_interval_seconds })
    } else if word == "hybrid"@ {
        Some(
            ReaderPolicyType::Hybrid {
                periodic_seconds: max_age_seconds / 2,
                change_check_seconds: check_interval_seconds,
            },
        )
    } else if word == "smart"@ {
        Some(ReaderPolicyType::Smart { max_age_seconds, min_interval_seconds: check_interval_seconds })
    } else {
        None
    }
}

/// Makes a reload policy; `None` where the word names no kind of policy.
pub fn reader_manager_create_policy(
    policy_name: &str,
    policy_type: &str,
    max_age_seconds: u64,
    check_interval_seconds: u64,
    auto_reload: bool,
    background_reload: bool,
    preload_segments: bool,
) -> (r: Option<ReaderPolicy>)
    ensures
        match r {
            Some(p) => policy_type_of(policy_type@, max_age_seconds, check_interval_seconds)
                == Some(p.policy_type) && p.name@ == policy_name@ && p.max_age_seconds
                == max_age_seconds && p.check_interval_seconds == check_interval_seconds
                && p.auto_reload == auto_reload && p.background_reload == background_reload
                && p.preload_segments == preload_segments,
            None => policy_type_of(policy_type@, max_age_seconds, check_interval_seconds) is None,
        },
{
    let kind = if same_text(policy_type, "manual") {
        ReaderPolicyType::Manual
    } else if same_text(policy_type, "periodic") {
        ReaderPolicyType::Periodic { interval_seconds: check_interval_seconds }
    } else if same_text(policy_type, "on_change") {
        ReaderPolicyType::OnChange { check_interval_seconds }
    } else if same_text(policy_type, "hybrid") {
        ReaderPolicyType::Hybrid {
            periodic_seconds: max_age_seconds / 2,
            change_check_seconds: check_interval_seconds,
        }
    } else if same_text(policy_type, "smart") {
        ReaderPolicyType::Smart { max_age_seconds, min_interval_seconds: check_interval_seconds }
    } else {
        return None;
    };
    Some(
        ReaderPolicy {
            name: copy_text(policy_name),
            policy_type: kind,
            max_age_seconds,
            check_interval_seconds,
            auto_reload,
            background_reload,
            preload_segments,
        },
    )
}

/// Sets what is watched of the readers.
pub fn reader_manager_configure_monitoring(
    config: &mut MonitoringConfig,
    track_usage_stats: bool,
    track_performance: bool,
    log_reload_events: bool,
    alert_on_slow_reloads: bool,
    slow_reload_threshold_ms: u64,
)
    ensures
        *final(config) == (MonitoringConfig {
            track_usage_stats,
            track_performance,
            log_reload_events,
            alert_on_slow_reloads,
            slow_reload_threshold_ms,
        }),
{
    config.track_usage_stats = track_usage_stats;
    config.track_performance = track_performance;
    config.log_reload_events = log_reload_events;
    config.alert_on_slow_reloads = alert_on_slow_reloads;
    config.slow_reload_threshold_ms = slow_reload_threshold_ms;
}

/// The statistics of a reader made at the time `now`.
pub fn reader_manager_create_reader(reader_id: &str, policy_name: &str, now: u64) -> (s:
    ReaderStats)
    ensures
        s.reader_id@ == reader_id@,
        s.policy_name@ == policy_name@,
        s.creation_time == now,
        s.last_reload_time == now,
        s.reload_count == 0,
        s.search_count == 0,
        s.total_search_time_ms == 0,
        s.memory_usage_bytes == READER_MEMORY_ESTIMATE,
        s.segment_count == 0,
{
    ReaderStats {
        reader_id: copy_text(reader_id),
        creation_time: now,
        last_reload_time: now,
        reload_count: 0,
        search_count: 0,
        total_search_time_ms: 0,
        memory_usage_bytes: estimate_reader_memory_usage(),
        segment_count: 0,
        policy_name: copy_text(policy_name),
    }
}

/// `a + b`, or the greatest number where that is greater.
pub open spec fn capped_sum(a: u64, b: u64) -> u64 {
    if a + b > u64::MAX {
        u64::MAX
    } else {
        (a + b) as u64
    }
}

fn add_capped(a: u64, b: u64) -> (r: u64)
    ensures
        r == capped_sum(a, b),
{
    if a > u64::MAX - b {
        u64::MAX
    } else {
        a + b
    }
}

/// Notes a reload at the time `now`. The count stops at the greatest
/// number.
pub fn reader_manager_reload_reader(stats: &mut ReaderStats, now: u64)
    ensures
        final(stats).last_reload_time == now,
        final(stats).reload_count == capped_sum(old(stats).reload_count, 1),
        final(stats).creation_time == old(stats).creation_time,
        final(stats).search_count == old(stats).search_count,
        final(stats).total_search_time_ms == old(stats).total_search_time_ms,
        final(stats).memory_usage_bytes == old(stats).memory_usage_bytes,
        final(stats).segment_count == old(stats).segment_count,
        final(stats).reader_id@ == old(stats).reader_id@,
        final(stats).policy_name@ == old(stats).policy_name@,
{
    stats.last_reload_time = now;
    stats.reload_count = add_capped(stats.reload_count, 1);
}

/// Notes a search that took `search_duration_ms`. The count and the total
/// stop at the greatest number.
pub fn reader_manager_record_search(stats: &mut ReaderStats, search_duration_ms: u64)
    ensures
        final(stats).search_count == capped_sum(old(stats).search_count, 1),
        final(stats).total_search_time_ms == capped_sum(
            old(stats).total_search_time_ms,
            search_duration_ms,
        ),
        final(stats).creation_time == old(stats).creation_time,
        final(stats).last_reload_time == old(stats).last_reload_time,
        final(stats).reload_count == old(stats).reload_count,
        final(stats).memory_usage_bytes == old(stats).memory_usage_bytes,
        final(stats).segment_count == old(stats).segment_count,
        final(stats).reader_id@ == old(stats).reader_id@,
        final(stats).policy_name@ == old(stats).policy_name@,
{
    stats.search_count = add_capped(stats.search_count, 1);
    stats.total_search_time_ms = add_capped(stats.total_search_time_ms, search_duration_ms);
}

/// The seconds from `earlier` to `now`; none where `now` is before.
pub open spec fn seconds_since(now: u64, earlier: u64) -> u64 {
    if now >= earlier {
        (now - earlier) as u64
    } else {
        0
    }
}

/// Whether the average of `total` over `count` is above `limit`. Without a
/// search the average is zero.
pub open spec fn average_above(total: u64, count: u64, limit: u64) -> bool {
    count > 0 && total > limit * count
}

/// Whether the average of `total` over `count` is below `limit`.
pub open spec fn average_below(total: u64, count: u64, limit: u64) -> bool {
    if count > 0 {
        total < limit * count
    } else {
        limit > 0
    }
}

/// After how many seconds without a reload a reload is advised.
pub const RELOAD_ADVISED_AFTER: u64 = 300;

/// After how many seconds without a reload a reader is unhealthy.
pub const RELOAD_NEEDED_AFTER: u64 = 600;

/// The average search time, in milliseconds, above which the index should
/// be looked at.
pub const SLOW_SEARCH_MS: u64 = 100;

/// The average search time, in milliseconds, from which a reader is
/// unhealthy.
pub const UNHEALTHY_SEARCH_MS: u64 = 200;

/// The memory, in bytes, above which a reader should be watched.
pub const HIGH_MEMORY_BYTES: u64 = 1_073_741_824;

/// What is advised for a reader: a reload after five minutes without one,
/// a look at the index where searches are slow, a watch on memory where it
/// is high. In this order.
pub open spec fn advice(idle: u64, total: u64, count: u64, memory: u64) -> Seq<Seq<char>> {
    let a = if idle > RELOAD_ADVISED_AFTER {
        seq!["Consider reloading - reader is over 5 minutes old"@]
    } else {
        Seq::empty()
    };
    let b = if average_above(total, count, SLOW_SEARCH_MS) {
        a.push("High search latency - consider optimizing index"@)
    } else {
        a
    };
    if memory > HIGH_MEMORY_BYTES {
        b.push("High memory usage - monitor for memory leaks"@)
    } else {
        b
    }
}

/// Judges the health of a reader at the time `now`.
pub fn reader_manager_get_reader_health(stats: &ReaderStats, now: u64) -> (h: ReaderHealth)
    ensures
        h.reader_id@ == stats.reader_id@,
        h.age_seconds == seconds_since(now, stats.creation_time),
        h.last_reload_seconds_ago == seconds_since(now, stats.last_reload_time),
        h.is_healthy == (h.last_reload_seconds_ago < RELOAD_NEEDED_AFTER && average_below(
            stats.total_search_time_ms,
            stats.search_count,
            UNHEALTHY_SEARCH_MS,
        )),
        texts(h.recommendations@) == advice(
            h.last_reload_seconds_ago,
            stats.total_search_time_ms,
            stats.search_count,
            stats.memory_usage_bytes,
        ),
{
    let age_seconds = if now >= stats.creation_time {
        now - stats.creation_time
    } else {
        0
    };
    let idle = if now >= stats.last_reload_time {
        now - stats.last_reload_time
    } else {
        0
    };
    let total = stats.total_search_time_ms as u128;
    let count = stats.search_count as u128;
    let slow = count > 0 && total > 100u128 * count;
    let quick = if count > 0 {
        total < 200u128 * count
    } else {
        true
    };
    let mut recommendations: Vec<String> = Vec::new();
    if idle > RELOAD_ADVISED_AFTER {
        recommendations.push(copy_text("Consider reloading - reader is over 5 minutes old"));
    }
    if slow {
        recommendations.push(copy_text("High search latency - consider optimizing index"));
    }
    if stats.memory_usage_bytes > HIGH_MEMORY_BYTES {
        recommendations.push(copy_text("High memory usage - monitor for memory leaks"));
    }
    proof {
        assert(texts(recommendations@) =~= advice(
            idle,
            stats.total_search_time_ms,
            stats.search_count,
            stats.memory_usage_bytes,
        ));
    }
    ReaderHealth {
        reader_id: stats.reader_id.clone(),
        is_healthy: idle < RELOAD_NEEDED_AFTER && quick,
        age_seconds,
        last_reload_seconds_ago: idle,
        recommendations,
    }
}

} // verus!
