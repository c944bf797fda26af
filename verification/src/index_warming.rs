//! Warming of an index: how searchers are kept ready, and when they go.
use vstd::prelude::*;
use crate::text::same_text;

verus! {

/// When an index is warmed.
#[derive(Clone, Copy, Debug, PartialEq, Eq, Structural)]
pub enum WarmingStrategy {
    /// At once, when the index is opened.
    Eager,
    /// When it is first asked for.
    Lazy,
    /// At set intervals.
    Scheduled,
    /// By how the index is used.
    Predictive,
}

/// By what cached searchers are chosen to go.
#[derive(Clone, Copy, Debug, PartialEq, Eq, Structural)]
pub enum EvictionPolicy {
    /// Least recently used.
    LRU,
    /// Least frequently used.
    LFU,
    /// Time to live.
    TTL,
    /// By size.
    Size,
}

/// How searchers are warmed and cached.
#[derive(Debug, PartialEq)]
pub struct WarmingConfig {
    pub cache_size_limit: usize,
    pub ttl_seconds: u64,
    pub preload_queries: Vec<String>,
    pub warming_strategy: WarmingStrategy,
    pub eviction_policy: EvictionPolicy,
    pub background_warming: bool,
}

/// The cache size where none is set: 256 MiB.
pub const DEFAULT_CACHE_SIZE: usize = 268_435_456;

impl Default for WarmingConfig {
    fn default() -> (c: WarmingConfig)
        ensures
            c.cache_size_limit == DEFAULT_CACHE_SIZE,
            c.ttl_seconds == 3600,
            c.preload_queries@.len() == 0,
            c.warming_strategy == WarmingStrategy::Lazy,
            c.eviction_policy == EvictionPolicy::LRU,
            c.background_warming,
    {
        WarmingConfig {
            cache_size_limit: 256 * 1024 * 1024,
            ttl_seconds: 3600,
            preload_queries: Vec::new(),
            warming_strategy: WarmingStrategy::Lazy,
            eviction_policy: EvictionPolicy::LRU,
            background_warming: true,
        }
    }
}

/// What warming and caching have done.
#[derive(Clone, Copy, Debug, PartialEq, Eq, Structural)]
pub struct WarmingStats {
    pub cache_hits: u64,
    pub cache_misses: u64,
    pub evictions: u64,
    pub warming_operations: u64,
    pub total_warming_time_ms: u64,
    pub memory_usage_bytes: usize,
}

impl Default for WarmingStats {
    fn default() -> (s: WarmingStats)
        ensures
            s == (WarmingStats {
                cache_hits: 0,
                cache_misses: 0,
                evictions: 0,
                warming_operations: 0,
                total_warming_time_ms: 0,
                memory_usage_bytes: 0,
            }),
    {
        WarmingStats {
            cache_hits: 0,
            cache_misses: 0,
            evictions: 0,
            warming_operations: 0,
            total_warming_time_ms: 0,
            memory_usage_bytes: 0,
        }
    }
}

pub open spec fn strategy_of(word: Seq<char>) -> Option<WarmingStrategy> {
    if word == "eager"@ {
        Some(WarmingStrategy::Eager)
    } else if word == "lazy"@ {
        Some(WarmingStrategy::Lazy)
    } else if word == "scheduled"@ {
        Some(WarmingStrategy::Scheduled)
    } else if word == "predictive"@ {
        Some(WarmingStrategy::Predictive)
    } else {
        None
    }
}

pub open spec fn eviction_of(word: Seq<char>) -> Option<EvictionPolicy> {
    if word == "lru"@ {
        Some(EvictionPolicy::LRU)
    } else if word == "lfu"@ {
        Some(EvictionPolicy::LFU)
    } else if word == "ttl"@ {
        Some(EvictionPolicy::TTL)
    } else if word == "size"@ {
        Some(EvictionPolicy::Size)
    } else {
        None
    }
}

/// Bytes in a mebibyte.
pub const MEBIBYTE: usize = 1_048_576;

/// Whether a configuration can be set: both words are known, and the
/// cache size in bytes can be counted.
pub open spec fn configurable(cache_size_mb: usize, strategy: Seq<char>, eviction: Seq<char>) -> bool {
    strategy_of(strategy) is Some && eviction_of(eviction) is Some && cache_size_mb * MEBIBYTE
        <= usize::MAX
}

/// Sets how searchers are warmed and cached. Where a word is not known or
/// the size cannot be counted, nothing is set.
pub fn index_warming_configure(
    config: &mut WarmingConfig,
    cache_size_mb: usize,
    ttl_seconds: u64,
    strategy: &str,
    eviction_policy: &str,
    background_warming: bool,
) -> (ok: bool)
    ensures
        ok == configurable(cache_size_mb, strategy@, eviction_policy@),
        final(config).preload_queries@ == old(config).preload_queries@,
        ok ==> final(config).cache_size_limit == cache_size_mb * MEBIBYTE && final(config).ttl_seconds == ttl_seconds && Some(final(config).warming_strategy) == strategy_of(
            strategy@,
        ) && Some(final(config).eviction_policy) == eviction_of(eviction_policy@) && final(config).background_warming == background_warming,
        !ok ==> final(config).cache_size_limit == old(config).cache_size_limit && final(config).ttl_seconds == old(config).ttl_seconds && final(config).warming_strategy == old(config).warming_strategy && final(config).eviction_policy == old(config).eviction_policy
            && final(config).background_warming == old(config).background_warming,
{
    let strategy = if same_text(strategy, "eager") {
        WarmingStrategy::Eager
    } else if same_text(strategy, "lazy") {
        WarmingStrategy::Lazy
    } else if same_text(strategy, "scheduled") {
        WarmingStrategy::Scheduled
    } else if same_text(strategy, "predictive") {
        WarmingStrategy::Predictive
    } else {
        return false;
    };
    let eviction = if same_text(eviction_policy, "lru") {
        EvictionPolicy::LRU
    } else if same_text(eviction_policy, "lfu") {
        EvictionPolicy::LFU
    } else if same_text(eviction_policy, "ttl") {
        EvictionPolicy::TTL
    } else if same_text(eviction_policy, "size") {
        EvictionPolicy::Size
    } else {
        return false;
    };
    if cache_size_mb > usize::MAX / MEBIBYTE {
        return false;
    }
    config.cache_size_limit = cache_size_mb * MEBIBYTE;
    config.ttl_seconds = ttl_seconds;
    config.warming_strategy = strategy;
    config.eviction_policy = eviction;
    config.background_warming = background_warming;
    true
}

/// Adds queries to run when an index is warmed, after those that are there.
pub fn index_warming_add_preload_queries(config: &mut WarmingConfig, queries: Vec<String>)
    ensures
        final(config).preload_queries@ == old(config).preload_queries@ + queries@,
        final(config).cache_size_limit == old(config).cache_size_limit,
        final(config).ttl_seconds == old(config).ttl_seconds,
        final(config).warming_strategy == old(config).warming_strategy,
        final(config).eviction_policy == old(config).eviction_policy,
        final(config).background_warming == old(config).background_warming,
{
    let ghost before = config.preload_queries@;
    for q in it: queries
        invariant
            it.seq() == queries@,
            before == old(config).preload_queries@,
            config.preload_queries@ == before + queries@.take(it.index() as int),
            config.cache_size_limit == old(config).cache_size_limit,
            config.ttl_seconds == old(config).ttl_seconds,
            config.warming_strategy == old(config).warming_strategy,
            config.eviction_policy == old(config).eviction_policy,
            config.background_warming == old(config).background_warming,
    {
        proof {
            let i = it.index() as int;
            assert(before + queries@.take(i + 1) =~= (before + queries@.take(i)).push(q));
        }
        config.preload_queries.push(q);
    }
    proof {
        assert(queries@.take(queries@.len() as int) =~= queries@);
    }
}

/// What is known of a cached searcher: how long ago it was made and last
/// used, in nanoseconds, and what it holds.
#[derive(Clone, Copy, Debug, PartialEq, Eq, Structural)]
pub struct CachedEntry {
    pub age_nanos: u128,
    pub idle_nanos: u128,
    pub size_bytes: usize,
}

/// Nanoseconds in a second.
pub const NANOS_PER_SECOND: u128 = 1_000_000_000;

/// Whether a cached searcher goes: by time to live when it is older than
/// the time allows, by least recent use when it has been idle for longer;
/// by no other policy.
pub open spec fn evicts(policy: EvictionPolicy, ttl_seconds: u64, entry: CachedEntry) -> bool {
    match policy {
        EvictionPolicy::TTL => entry.age_nanos > ttl_seconds * NANOS_PER_SECOND,
        EvictionPolicy::LRU => entry.idle_nanos > ttl_seconds * NANOS_PER_SECOND,
        _ => false,
    }
}

/// Whether each entry goes: every one where all are to go.
pub open spec fn eviction_plan(
    policy: EvictionPolicy,
    ttl_seconds: u64,
    entries: Seq<CachedEntry>,
    force_all: bool,
) -> Seq<bool> {
    entries.map_values(|e: CachedEntry| force_all || evicts(policy, ttl_seconds, e))
}

/// How many entries go.
pub open spec fn count_true(plan: Seq<bool>) -> nat
    decreases plan.len(),
{
    if plan.len() == 0 {
        0
    } else {
        count_true(plan.drop_last()) + if plan.last() {
            1nat
        } else {
            0nat
        }
    }
}

/// The memory that stays in use after the entries that go are taken off,
/// one after the other, never below zero.
pub open spec fn memory_after(memory: usize, entries: Seq<CachedEntry>, plan: Seq<bool>) -> usize
    decreases entries.len(),
{
    if entries.len() == 0 || plan.len() != entries.len() {
        memory
    } else {
        let before = memory_after(memory, entries.drop_last(), plan.drop_last());
        if plan.last() {
            if before >= entries.last().size_bytes {
                (before - entries.last().size_bytes) as usize
            } else {
                0
            }
        } else {
            before
        }
    }
}

/// Decides which cached searchers go, and notes it in the statistics: the
/// evictions are counted, up to the greatest number, and their memory is
/// taken off, all of it where all go.
pub fn index_warming_evict_cache(
    config: &WarmingConfig,
    stats: &mut WarmingStats,
    entries: &Vec<CachedEntry>,
    force_all: bool,
) -> (plan: Vec<bool>)
    ensures
        plan@ == eviction_plan(config.eviction_policy, config.ttl_seconds, entries@, force_all),
        final(stats).evictions == (if old(stats).evictions + count_true(plan@) > u64::MAX {
            u64::MAX
        } else {
            (old(stats).evictions + count_true(plan@)) as u64
        }),
        final(stats).memory_usage_bytes == (if force_all {
            0
        } else {
            memory_after(old(stats).memory_usage_bytes, entries@, plan@)
        }),
        final(stats).cache_hits == old(stats).cache_hits,
        final(stats).cache_misses == old(stats).cache_misses,
        final(stats).warming_operations == old(stats).warming_operations,
        final(stats).total_warming_time_ms == old(stats).total_warming_time_ms,
{
    let ghost want = eviction_plan(config.eviction_policy, config.ttl_seconds, entries@, force_all);
    let limit: u128 = (config.ttl_seconds as u128) * 1_000_000_000u128;
    let mut plan: Vec<bool> = Vec::new();
    let mut count: usize = 0;
    let mut memory: usize = stats.memory_usage_bytes;
    let mut i: usize = 0;
    proof {
        assert(entries@.take(0) =~= Seq::<CachedEntry>::empty());
        assert(plan@.take(0) =~= Seq::<bool>::empty());
    }
    while i < entries.len()
        invariant
            i <= entries.len(),
            limit == config.ttl_seconds * NANOS_PER_SECOND,
            want == eviction_plan(config.eviction_policy, config.ttl_seconds, entries@, force_all),
            plan@ == want.take(i as int),
            count == count_true(plan@),
            count <= i,
            memory == memory_after(old(stats).memory_usage_bytes, entries@.take(i as int), plan@),
            *stats == *old(stats),
        decreases entries.len() - i,
    {
        let e = entries[i];
        let goes = force_all || match config.eviction_policy {
            EvictionPolicy::TTL => e.age_nanos > limit,
            EvictionPolicy::LRU => e.idle_nanos > limit,
            _ => false,
        };
        proof {
            assert(want[i as int] == goes);
            assert(want.take(i + 1) =~= want.take(i as int).push(goes));
            assert(plan@.push(goes).drop_last() =~= plan@);
            assert(entries@.take(i + 1).drop_last() =~= entries@.take(i as int));
            assert(entries@.take(i + 1).last() == e);
        }
        plan.push(goes);
        if goes {
            count += 1;
            memory = if memory >= e.size_bytes {
                memory - e.size_bytes
            } else {
                0
            };
        }
        i += 1;
    }
    proof {
        assert(want.take(want.len() as int) =~= want);
        assert(entries@.take(entries@.len() as int) =~= entries@);
    }
    stats.evictions = if stats.evictions > u64::MAX - (count as u64) {
        u64::MAX
    } else {
        stats.evictions + count as u64
    };
    stats.memory_usage_bytes = if force_all {
        0
    } else {
        memory
    };
    plan
}

/// The average time of a warming, in whole milliseconds; zero without one.
pub open spec fn average_warming_ms(stats: WarmingStats) -> u64 {
    if stats.warming_operations > 0 {
        stats.total_warming_time_ms / stats.warming_operations
    } else {
        0
    }
}

/// The average time of a warming.
pub fn index_warming_get_stats(stats: &WarmingStats) -> (average: u64)
    ensures
        average == average_warming_ms(*stats),
{
    if stats.warming_operations > 0 {
        stats.total_warming_time_ms / stats.warming_operations
    } else {
        0
    }
}

/// Notes that every cached searcher went: `cached` evictions more, up to
/// the greatest number, and no memory in use.
pub fn index_warming_clear_cache(stats: &mut WarmingStats, cached: usize)
    ensures
        final(stats).evictions == (if old(stats).evictions + cached > u64::MAX {
            u64::MAX
        } else {
            (old(stats).evictions + cached) as u64
        }),
        final(stats).memory_usage_bytes == 0,
        final(stats).cache_hits == old(stats).cache_hits,
        final(stats).cache_misses == old(stats).cache_misses,
        final(stats).warming_operations == old(stats).warming_operations,
        final(stats).total_warming_time_ms == old(stats).total_warming_time_ms,
{
    stats.evictions = if stats.evictions > u64::MAX - (cached as u64) {
        u64::MAX
    } else {
        stats.evictions + cached as u64
    };
    stats.memory_usage_bytes = 0;
}

} // verus!
