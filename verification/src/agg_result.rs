//! Projecting the results of aggregations to loosely typed values.
use vstd::prelude::*;
use crate::aggregation::{lemma_request_models, request_models, AggregationRequest, RequestModel};
use crate::document::Document;
use crate::project::{project_document, put, put_all, put_entry, within};
use crate::schema::{FieldModel, Schema};
use crate::text::{copy_text, same_text};
use crate::value::{
    dyn_entry_models, dyn_models, lemma_dyn_entry_models, lemma_dyn_models, DynModel, DynValue,
};

verus! {

/// The key of a bucket. `F64` holds the decimal literal of the number.
#[derive(Debug, PartialEq)]
pub enum Key {
    Str(String),
    F64(String),
    I64(i64),
    U64(u64),
}

/// A bucket of a terms or histogram aggregation, with the results of the
/// aggregations inside it, each under its name.
#[derive(Debug, PartialEq)]
pub struct BucketEntry {
    pub key: Key,
    pub doc_count: u64,
    pub sub_aggregation: Vec<(String, AggregationResult)>,
}

/// A bucket of a range aggregation. The bounds hold decimal literals.
#[derive(Debug, PartialEq)]
pub struct RangeBucketEntry {
    pub key: Key,
    pub doc_count: u64,
    pub sub_aggregation: Vec<(String, AggregationResult)>,
    pub from: Option<String>,
    pub to: Option<String>,
}

#[derive(Debug, PartialEq)]
#[allow(inconsistent_fields)]
pub enum BucketResult {
    Terms {
        buckets: Vec<BucketEntry>,
        sum_other_doc_count: u64,
        doc_count_error_upper_bound: Option<u64>,
    },
    Histogram { buckets: Vec<BucketEntry> },
    Range { buckets: Vec<RangeBucketEntry> },
}

/// The statistics of a field. Each number but the count holds a decimal
/// literal, or nothing where there is no number.
#[derive(Debug, PartialEq)]
pub struct StatsResult {
    pub count: u64,
    pub min: Option<String>,
    pub max: Option<String>,
    pub avg: Option<String>,
    pub sum: Option<String>,
}

/// The result of a metric aggregation. A value holds a decimal literal, or
/// nothing where there is no number.
#[derive(Debug, PartialEq)]
pub enum MetricResult {
    Average(Option<String>),
    Count(Option<String>),
    Max(Option<String>),
    Min(Option<String>),
    Sum(Option<String>),
    Stats(StatsResult),
    /// Each percentile point by its label, with its value.
    Percentiles(Vec<(String, Option<String>)>),
    ExtendedStats,
    TopHits,
    Cardinality,
}

#[derive(Debug, PartialEq)]
pub enum AggregationResult {
    BucketResult(BucketResult),
    MetricResult(MetricResult),
}

/// Whether no two results stand under one name, as in what the engine
/// gives for the aggregations inside a bucket.
pub open spec fn names_once(results: Seq<(String, AggregationResult)>) -> bool {
    forall|i: int, j: int| 0 <= i < j < results.len() ==> results[i].0@ != results[j].0@
}

/// Whether a result stands under `name`.
pub open spec fn has_result(results: Seq<(String, AggregationResult)>, name: Seq<char>) -> bool {
    exists|i: int| 0 <= i < results.len() && (#[trigger] results[i]).0@ == name
}

pub open spec fn key_value(k: Key) -> DynModel {
    match k {
        Key::Str(s) => DynModel::Str(s@),
        Key::F64(t) => DynModel::Float(t@),
        Key::I64(i) => DynModel::Signed(i),
        Key::U64(u) => DynModel::Unsigned(u),
    }
}

/// A number by its literal, or null.
pub open spec fn number_or_null(v: Option<String>) -> DynModel {
    match v {
        Some(t) => DynModel::Float(t@),
        None => DynModel::Null,
    }
}

pub open spec fn count_or_null(v: Option<u64>) -> DynModel {
    match v {
        Some(n) => DynModel::Unsigned(n),
        None => DynModel::Null,
    }
}

/// An object with its single entry.
pub open spec fn single_entry(key: Seq<char>, value: DynModel) -> DynModel {
    DynModel::Object(seq![(key, value)])
}

/// The marker of a kind of result that has no projection.
pub open spec fn not_implemented(message: Seq<char>) -> DynModel {
    single_entry("error"@, DynModel::Str(message))
}

/// The values of the percentile points, each put under its label.
pub open spec fn percentile_entries(values: Seq<(String, Option<String>)>) -> Seq<
    (Seq<char>, DynModel),
>
    decreases values.len(),
{
    if values.len() == 0 {
        Seq::empty()
    } else {
        put(percentile_entries(values.drop_last()), values.last().0@, number_or_null(values.last().1))
    }
}

/// The projection of a metric: `value` for a single number, the five
/// statistics by name, the percentile values under `values`, and a marker
/// for the kinds that have no projection.
pub open spec fn projected_metric(m: MetricResult) -> DynModel {
    match m {
        MetricResult::Average(v) => single_entry("value"@, number_or_null(v)),
        MetricResult::Count(v) => single_entry("value"@, number_or_null(v)),
        MetricResult::Max(v) => single_entry("value"@, number_or_null(v)),
        MetricResult::Min(v) => single_entry("value"@, number_or_null(v)),
        MetricResult::Sum(v) => single_entry("value"@, number_or_null(v)),
        MetricResult::Stats(s) => DynModel::Object(
            seq![
                ("count"@, DynModel::Unsigned(s.count)),
                ("min"@, number_or_null(s.min)),
                ("max"@, number_or_null(s.max)),
                ("avg"@, number_or_null(s.avg)),
                ("sum"@, number_or_null(s.sum)),
            ],
        ),
        MetricResult::Percentiles(values) => single_entry(
            "values"@,
            DynModel::Object(percentile_entries(values@)),
        ),
        MetricResult::ExtendedStats => not_implemented("ExtendedStats not implemented yet"@),
        MetricResult::TopHits => not_implemented("TopHits not implemented yet"@),
        MetricResult::Cardinality => not_implemented("Cardinality not implemented yet"@),
    }
}

/// The first request node called `name`.
pub open spec fn find_request(requests: Seq<RequestModel>, name: Seq<char>) -> Option<RequestModel>
    decreases requests.len(),
{
    if requests.len() == 0 {
        None
    } else {
        match find_request(requests.drop_last(), name) {
            Some(r) => Some(r),
            None => if requests.last().name == name {
                Some(requests.last())
            } else {
                None
            },
        }
    }
}

/// The entries `base` with every entry of `more` put in, in order.
pub open spec fn put_each(base: Seq<(Seq<char>, DynModel)>, more: Seq<(Seq<char>, DynModel)>) -> Seq<
    (Seq<char>, DynModel),
>
    decreases more.len(),
{
    if more.len() == 0 {
        base
    } else {
        put(put_each(base, more.drop_last()), more.last().0, more.last().1)
    }
}

/// The first entries of a range bucket: its bounds where it has them.
pub open spec fn range_head(from: Option<String>, to: Option<String>) -> Seq<(Seq<char>, DynModel)> {
    let a = match from {
        Some(t) => seq![("from"@, DynModel::Float(t@))],
        None => Seq::empty(),
    };
    match to {
        Some(t) => a.push(("to"@, DynModel::Float(t@))),
        None => a,
    }
}

/// The projection of a result by the request node that asked for it.
pub open spec fn projected_result(result: AggregationResult, request: RequestModel) -> DynModel
    decreases result,
{
    match result {
        AggregationResult::BucketResult(b) => match b {
            BucketResult::Terms {
                buckets,
                sum_other_doc_count,
                doc_count_error_upper_bound,
            } => DynModel::Object(
                seq![
                    ("doc_count_error_upper_bound"@, count_or_null(doc_count_error_upper_bound)),
                    ("sum_other_doc_count"@, DynModel::Unsigned(sum_other_doc_count)),
                    ("buckets"@, DynModel::List(projected_buckets(buckets@, request))),
                ],
            ),
            BucketResult::Histogram { buckets } => single_entry(
                "buckets"@,
                DynModel::List(projected_buckets(buckets@, request)),
            ),
            BucketResult::Range { buckets } => single_entry(
                "buckets"@,
                DynModel::List(projected_range_buckets(buckets@, request)),
            ),
        },
        AggregationResult::MetricResult(m) => projected_metric(m),
    }
}

/// The object of each bucket: its key and count, then the results of the
/// aggregations inside it, each put beside them under its own name.
pub open spec fn projected_buckets(buckets: Seq<BucketEntry>, request: RequestModel) -> Seq<
    DynModel,
>
    decreases buckets,
{
    if buckets.len() == 0 {
        Seq::empty()
    } else {
        projected_buckets(buckets.drop_last(), request).push(
            DynModel::Object(
                put_each(
                    seq![
                        ("key"@, key_value(buckets.last().key)),
                        ("doc_count"@, DynModel::Unsigned(buckets.last().doc_count)),
                    ],
                    projected_results(
                        buckets.last().sub_aggregation@,
                        request.sub_aggregations,
                    ),
                ),
            ),
        )
    }
}

pub open spec fn projected_range_buckets(buckets: Seq<RangeBucketEntry>, request: RequestModel) -> Seq<
    DynModel,
>
    decreases buckets,
{
    if buckets.len() == 0 {
        Seq::empty()
    } else {
        projected_range_buckets(buckets.drop_last(), request).push(
            DynModel::Object(
                put_each(
                    range_head(buckets.last().from, buckets.last().to) + seq![
                        ("key"@, key_value(buckets.last().key)),
                        ("doc_count"@, DynModel::Unsigned(buckets.last().doc_count)),
                    ],
                    projected_results(
                        buckets.last().sub_aggregation@,
                        request.sub_aggregations,
                    ),
                ),
            ),
        )
    }
}

/// The projections of named results, each by the request node of its
/// name; a result that no node asked for is left out.
pub open spec fn projected_results(
    results: Seq<(String, AggregationResult)>,
    requests: Seq<RequestModel>,
) -> Seq<(Seq<char>, DynModel)>
    decreases results,
{
    if results.len() == 0 {
        Seq::empty()
    } else {
        let before = projected_results(results.drop_last(), requests);
        match find_request(requests, results.last().0@) {
            Some(request) => put(
                before,
                results.last().0@,
                projected_result(results.last().1, request),
            ),
            None => before,
        }
    }
}

pub proof fn lemma_find_request(requests: Seq<RequestModel>, name: Seq<char>)
    ensures
        match find_request(requests, name) {
            Some(r) => exists|i: int|
                0 <= i < requests.len() && requests[i] == r && requests[i].name == name && forall|
                    k: int,
                |
                    0 <= k < i ==> (#[trigger] requests[k]).name != name,
            None => forall|k: int| 0 <= k < requests.len() ==> (#[trigger] requests[k]).name != name,
        },
    decreases requests.len(),
{
    if requests.len() > 0 {
        let before = requests.drop_last();
        lemma_find_request(before, name);
        match find_request(before, name) {
            Some(r) => {
                let i = choose|i: int|
                    0 <= i < before.len() && before[i] == r && before[i].name == name && forall|
                        k: int,
                    |
                        0 <= k < i ==> (#[trigger] before[k]).name != name;
                assert(requests[i] == before[i]);
                assert forall|k: int| 0 <= k < i implies (#[trigger] requests[k]).name != name by {
                    assert(before[k] == requests[k]);
                }
            },
            None => {
                assert forall|k: int| 0 <= k < requests.len() - 1 implies (
                #[trigger] requests[k]).name != name by {
                    assert(before[k] == requests[k]);
                }
                if requests.last().name == name {
                    assert(requests[requests.len() - 1] == requests.last());
                }
            },
        }
    }
}

/// The first request node called `name`.
pub fn find_request_node<'a>(requests: &'a Vec<AggregationRequest>, name: &str) -> (r: Option<
    &'a AggregationRequest,
>)
    ensures
        match r {
            Some(node) => find_request(request_models(requests@), name@) == Some(node@),
            None => find_request(request_models(requests@), name@) is None,
        },
{
    let ghost ms = request_models(requests@);
    proof {
        lemma_request_models(requests@);
        lemma_find_request(ms, name@);
    }
    let mut i: usize = 0;
    while i < requests.len()
        invariant
            i <= requests.len(),
            ms == request_models(requests@),
            ms.len() == requests@.len(),
            forall|k: int| 0 <= k < requests@.len() ==> #[trigger] ms[k] == requests@[k]@,
            forall|k: int| 0 <= k < i ==> (#[trigger] ms[k]).name != name@,
        decreases requests.len() - i,
    {
        if same_text(requests[i].name.as_str(), name) {
            proof {
                assert(ms[i as int].name == name@);
                lemma_find_request(ms, name@);
                match find_request(ms, name@) {
                    Some(r) => {
                        let j = choose|j: int|
                            0 <= j < ms.len() && ms[j] == r && ms[j].name == name@ && forall|
                                k: int,
                            |
                                0 <= k < j ==> (#[trigger] ms[k]).name != name@;
                        if j < i {
                            assert(ms[j].name != name@);
                        }
                        if i < j {
                            assert(ms[i as int].name != name@);
                        }
                    },
                    None => {
                        assert(ms[i as int].name != name@);
                    },
                }
            }
            return Some(&requests[i]);
        }
        i += 1;
    }
    None
}

/// Projects the key of a bucket.
pub fn convert_key_to_json(key: &Key) -> (r: DynValue)
    ensures
        r@ == key_value(*key),
{
    match key {
        Key::Str(s) => DynValue::Str(s.clone()),
        Key::F64(t) => DynValue::Float(t.clone()),
        Key::I64(i) => DynValue::Signed(*i),
        Key::U64(u) => DynValue::Unsigned(*u),
    }
}

fn number_value(v: &Option<String>) -> (r: DynValue)
    ensures
        r@ == number_or_null(*v),
{
    match v {
        Some(t) => DynValue::Float(t.clone()),
        None => DynValue::Null,
    }
}

fn object_of_one(key: &str, value: DynValue) -> (r: DynValue)
    ensures
        r@ == single_entry(key@, value@),
{
    let mut entries: Vec<(String, DynValue)> = Vec::new();
    entries.push((copy_text(key), value));
    proof {
        lemma_dyn_entry_models(entries@);
        assert(dyn_entry_models(entries@) =~= seq![(key@, value@)]);
    }
    DynValue::Object(entries)
}

fn push_named(entries: &mut Vec<(String, DynValue)>, key: &str, value: DynValue)
    ensures
        dyn_entry_models(final(entries)@) == dyn_entry_models(old(entries)@).push((key@, value@)),
{
    let k = copy_text(key);
    proof {
        assert(entries@.push((k, value)).drop_last() =~= entries@);
    }
    entries.push((k, value));
}

/// Projects the result of a metric aggregation.
pub fn convert_metric_result_to_json(result: &MetricResult) -> (r: DynValue)
    ensures
        r@ == projected_metric(*result),
{
    match result {
        MetricResult::Average(v) => object_of_one("value", number_value(v)),
        MetricResult::Count(v) => object_of_one("value", number_value(v)),
        MetricResult::Max(v) => object_of_one("value", number_value(v)),
        MetricResult::Min(v) => object_of_one("value", number_value(v)),
        MetricResult::Sum(v) => object_of_one("value", number_value(v)),
        MetricResult::Stats(s) => {
            let mut entries: Vec<(String, DynValue)> = Vec::new();
            push_named(&mut entries, "count", DynValue::Unsigned(s.count));
            push_named(&mut entries, "min", number_value(&s.min));
            push_named(&mut entries, "max", number_value(&s.max));
            push_named(&mut entries, "avg", number_value(&s.avg));
            push_named(&mut entries, "sum", number_value(&s.sum));
            proof {
                assert(dyn_entry_models(entries@) =~= seq![
                    ("count"@, DynModel::Unsigned(s.count)),
                    ("min"@, number_or_null(s.min)),
                    ("max"@, number_or_null(s.max)),
                    ("avg"@, number_or_null(s.avg)),
                    ("sum"@, number_or_null(s.sum)),
                ]);
            }
            DynValue::Object(entries)
        },
        MetricResult::Percentiles(values) => {
            let mut entries: Vec<(String, DynValue)> = Vec::new();
            let mut i: usize = 0;
            proof {
                assert(values@.take(0) =~= Seq::<(String, Option<String>)>::empty());
            }
            while i < values.len()
                invariant
                    i <= values.len(),
                    dyn_entry_models(entries@) == percentile_entries(values@.take(i as int)),
                decreases values.len() - i,
            {
                proof {
                    assert(values@.take(i + 1).drop_last() =~= values@.take(i as int));
                    assert(values@.take(i + 1).last() == values@[i as int]);
                }
                put_entry(&mut entries, values[i].0.clone(), number_value(&values[i].1));
                i += 1;
            }
            proof {
                assert(values@.take(values@.len() as int) =~= values@);
            }
            object_of_one("values", DynValue::Object(entries))
        },
        MetricResult::ExtendedStats => object_of_one(
            "error",
            DynValue::Str(copy_text("ExtendedStats not implemented yet")),
        ),
        MetricResult::TopHits => object_of_one(
            "error",
            DynValue::Str(copy_text("TopHits not implemented yet")),
        ),
        MetricResult::Cardinality => object_of_one(
            "error",
            DynValue::Str(copy_text("Cardinality not implemented yet")),
        ),
    }
}

/// Puts every entry of `more` into `entries`, in order.
fn put_entries(entries: &mut Vec<(String, DynValue)>, more: Vec<(String, DynValue)>)
    ensures
        dyn_entry_models(final(entries)@) == put_each(
            dyn_entry_models(old(entries)@),
            dyn_entry_models(more@),
        ),
{
    let ghost ms = dyn_entry_models(more@);
    let ghost base = dyn_entry_models(entries@);
    proof {
        lemma_dyn_entry_models(more@);
        assert(ms.take(0) =~= Seq::<(Seq<char>, DynModel)>::empty());
    }
    for e in it: more
        invariant
            it.seq() == more@,
            ms == dyn_entry_models(more@),
            ms.len() == more@.len(),
            forall|k: int| 0 <= k < more@.len() ==> #[trigger] ms[k] == (more@[k].0@, more@[k].1@),
            base == dyn_entry_models(old(entries)@),
            dyn_entry_models(entries@) == put_each(base, ms.take(it.index() as int)),
    {
        proof {
            let i = it.index() as int;
            assert(ms.take(i + 1).drop_last() =~= ms.take(i));
            assert(ms.take(i + 1).last() == (e.0@, e.1@));
        }
        put_entry(entries, e.0, e.1);
    }
    proof {
        assert(ms.take(ms.len() as int) =~= ms);
    }
}

/// Projects a result by the request node that asked for it.
#[verifier::loop_isolation(false)]
pub fn convert_agg_result_to_json(result: &AggregationResult, request: &AggregationRequest) -> (r:
    DynValue)
    ensures
        r@ == projected_result(*result, request@),
    decreases result,
{
    match result {
        AggregationResult::BucketResult(bucket_result) => convert_bucket_result_to_json(
            bucket_result,
            request,
        ),
        AggregationResult::MetricResult(metric_result) => convert_metric_result_to_json(
            metric_result,
        ),
    }
}

/// Projects the buckets of a bucket aggregation. The results of the
/// aggregations inside a bucket stand in the bucket's own object, beside
/// its key and its count.
#[verifier::loop_isolation(false)]
pub fn convert_bucket_result_to_json(result: &BucketResult, request: &AggregationRequest) -> (r:
    DynValue)
    ensures
        r@ == projected_result(AggregationResult::BucketResult(*result), request@),
    decreases result,
{
    match result {
        BucketResult::Terms { buckets, sum_other_doc_count, doc_count_error_upper_bound } => {
            let list = convert_buckets(buckets, request);
            let mut entries: Vec<(String, DynValue)> = Vec::new();
            push_named(
                &mut entries,
                "doc_count_error_upper_bound",
                match doc_count_error_upper_bound {
                    Some(n) => DynValue::Unsigned(*n),
                    None => DynValue::Null,
                },
            );
            push_named(&mut entries, "sum_other_doc_count", DynValue::Unsigned(*sum_other_doc_count));
            push_named(&mut entries, "buckets", list);
            proof {
                assert(dyn_entry_models(entries@) =~= seq![
                    ("doc_count_error_upper_bound"@, count_or_null(*doc_count_error_upper_bound)),
                    ("sum_other_doc_count"@, DynModel::Unsigned(*sum_other_doc_count)),
                    ("buckets"@, DynModel::List(projected_buckets(buckets@, request@))),
                ]);
            }
            DynValue::Object(entries)
        },
        BucketResult::Histogram { buckets } => object_of_one(
            "buckets",
            convert_buckets(buckets, request),
        ),
        BucketResult::Range { buckets } => object_of_one(
            "buckets",
            convert_range_buckets(buckets, request),
        ),
    }
}

#[verifier::loop_isolation(false)]
fn convert_buckets(buckets: &Vec<BucketEntry>, request: &AggregationRequest) -> (r: DynValue)
    ensures
        r@ == DynModel::List(projected_buckets(buckets@, request@)),
    decreases buckets,
{
    let mut out: Vec<DynValue> = Vec::new();
    let mut i: usize = 0;
    proof {
        assert(buckets@.take(0) =~= Seq::<BucketEntry>::empty());
    }
    while i < buckets.len()
        invariant
            i <= buckets.len(),
            dyn_models(out@) == projected_buckets(buckets@.take(i as int), request@),
        decreases buckets.len() - i,
    {
        let bucket = &buckets[i];
        proof {
            assert(buckets@.take(i + 1).drop_last() =~= buckets@.take(i as int));
            assert(buckets@.take(i + 1).last() == *bucket);
        }
        let mut entries: Vec<(String, DynValue)> = Vec::new();
        push_named(&mut entries, "key", convert_key_to_json(&bucket.key));
        push_named(&mut entries, "doc_count", DynValue::Unsigned(bucket.doc_count));
        let subs = convert_named_results(&bucket.sub_aggregation, &request.sub_aggregations);
        proof {
            assert(dyn_entry_models(entries@) =~= seq![
                ("key"@, key_value(bucket.key)),
                ("doc_count"@, DynModel::Unsigned(bucket.doc_count)),
            ]);
        }
        let ghost head = dyn_entry_models(entries@);
        put_entries(&mut entries, subs);
        let object = DynValue::Object(entries);
        proof {
            assert(request@.sub_aggregations == request_models(request.sub_aggregations@));
            assert(object@ == DynModel::Object(
                put_each(
                    head,
                    projected_results(bucket.sub_aggregation@, request@.sub_aggregations),
                ),
            ));
            assert(out@.push(object).drop_last() =~= out@);
            assert(dyn_models(out@.push(object)) == dyn_models(out@).push(object@));
        }
        out.push(object);
        i += 1;
    }
    proof {
        assert(buckets@.take(buckets@.len() as int) =~= buckets@);
    }
    DynValue::List(out)
}

#[verifier::loop_isolation(false)]
fn convert_range_buckets(buckets: &Vec<RangeBucketEntry>, request: &AggregationRequest) -> (r:
    DynValue)
    ensures
        r@ == DynModel::List(projected_range_buckets(buckets@, request@)),
    decreases buckets,
{
    let mut out: Vec<DynValue> = Vec::new();
    let mut i: usize = 0;
    proof {
        assert(buckets@.take(0) =~= Seq::<RangeBucketEntry>::empty());
    }
    while i < buckets.len()
        invariant
            i <= buckets.len(),
            dyn_models(out@) == projected_range_buckets(buckets@.take(i as int), request@),
        decreases buckets.len() - i,
    {
        let bucket = &buckets[i];
        proof {
            assert(buckets@.take(i + 1).drop_last() =~= buckets@.take(i as int));
            assert(buckets@.take(i + 1).last() == *bucket);
        }
        let mut entries: Vec<(String, DynValue)> = Vec::new();
        match &bucket.from {
            Some(t) => {
                push_named(&mut entries, "from", DynValue::Float(t.clone()));
            },
            None => {},
        }
        match &bucket.to {
            Some(t) => {
                push_named(&mut entries, "to", DynValue::Float(t.clone()));
            },
            None => {},
        }
        proof {
            assert(dyn_entry_models(entries@) =~= range_head(bucket.from, bucket.to));
        }
        push_named(&mut entries, "key", convert_key_to_json(&bucket.key));
        push_named(&mut entries, "doc_count", DynValue::Unsigned(bucket.doc_count));
        let subs = convert_named_results(&bucket.sub_aggregation, &request.sub_aggregations);
        proof {
            assert(dyn_entry_models(entries@) =~= range_head(bucket.from, bucket.to) + seq![
                ("key"@, key_value(bucket.key)),
                ("doc_count"@, DynModel::Unsigned(bucket.doc_count)),
            ]);
        }
        let ghost head = dyn_entry_models(entries@);
        put_entries(&mut entries, subs);
        let object = DynValue::Object(entries);
        proof {
            assert(request@.sub_aggregations == request_models(request.sub_aggregations@));
            assert(object@ == DynModel::Object(
                put_each(
                    head,
                    projected_results(bucket.sub_aggregation@, request@.sub_aggregations),
                ),
            ));
            assert(out@.push(object).drop_last() =~= out@);
            assert(dyn_models(out@.push(object)) == dyn_models(out@).push(object@));
        }
        out.push(object);
        i += 1;
    }
    proof {
        assert(buckets@.take(buckets@.len() as int) =~= buckets@);
    }
    DynValue::List(out)
}

#[verifier::loop_isolation(false)]
fn convert_named_results(
    results: &Vec<(String, AggregationResult)>,
    requests: &Vec<AggregationRequest>,
) -> (entries: Vec<(String, DynValue)>)
    ensures
        dyn_entry_models(entries@) == projected_results(results@, request_models(requests@)),
    decreases results,
{
    let mut entries: Vec<(String, DynValue)> = Vec::new();
    let mut i: usize = 0;
    proof {
        assert(results@.take(0) =~= Seq::<(String, AggregationResult)>::empty());
    }
    while i < results.len()
        invariant
            i <= results.len(),
            dyn_entry_models(entries@) == projected_results(
                results@.take(i as int),
                request_models(requests@),
            ),
        decreases results.len() - i,
    {
        proof {
            assert(results@.take(i + 1).drop_last() =~= results@.take(i as int));
            assert(results@.take(i + 1).last() == results@[i as int]);
        }
        match find_request_node(requests, results[i].0.as_str()) {
            Some(request) => {
                let value = convert_agg_result_to_json(&results[i].1, request);
                put_entry(&mut entries, results[i].0.clone(), value);
            },
            None => {},
        }
        i += 1;
    }
    proof {
        assert(results@.take(results@.len() as int) =~= results@);
    }
    entries
}

/// Projects the results of a request, each under its name, by the request
/// node of that name.
pub fn convert_aggregation_result_to_json(
    result: &Vec<(String, AggregationResult)>,
    requests: &Vec<AggregationRequest>,
) -> (r: DynValue)
    ensures
        r@ == DynModel::Object(projected_results(result@, request_models(requests@))),
{
    DynValue::Object(convert_named_results(result, requests))
}

/// The objects of the documents that a search found, in their order.
pub open spec fn document_objects(fields: Seq<FieldModel>, docs: Seq<Document>) -> Seq<DynModel> {
    docs.map_values(|d: Document| DynModel::Object(put_all(fields, Seq::empty(), d@)))
}

/// The result of a search with aggregations: under `hits` the number of
/// documents found, as an exact total, and their objects; under
/// `aggregations` the projected results.
pub open spec fn combined_result(hits: Seq<DynModel>, aggregations: DynModel) -> DynModel {
    DynModel::Object(
        seq![
            (
                "hits"@,
                DynModel::Object(
                    seq![
                        (
                            "total"@,
                            DynModel::Object(
                                seq![
                                    ("value"@, DynModel::Unsigned(hits.len() as u64)),
                                    ("relation"@, DynModel::Str("eq"@)),
                                ],
                            ),
                        ),
                        ("hits"@, DynModel::List(hits)),
                    ],
                ),
            ),
            ("aggregations"@, aggregations),
        ],
    )
}

/// Projects what a search with aggregations found: the stored values of
/// the documents and the results of the aggregations.
pub fn run_search_with_aggregations(
    schema: &Schema,
    documents: &Vec<Document>,
    result: &Vec<(String, AggregationResult)>,
    requests: &Vec<AggregationRequest>,
) -> (r: DynValue)
    requires
        forall|i: int| 0 <= i < documents@.len() ==> within(schema@, (#[trigger] documents@[i])@),
    ensures
        r@ == combined_result(
            document_objects(schema@, documents@),
            DynModel::Object(projected_results(result@, request_models(requests@))),
        ),
{
    let mut hits: Vec<DynValue> = Vec::new();
    let mut i: usize = 0;
    while i < documents.len()
        invariant
            i <= documents.len(),
            forall|k: int|
                0 <= k < documents@.len() ==> within(schema@, (#[trigger] documents@[k])@),
            hits.len() == i,
            forall|k: int|
                0 <= k < i ==> (#[trigger] hits@[k])@ == DynModel::Object(
                    put_all(schema@, Seq::empty(), documents@[k]@),
                ),
        decreases documents.len() - i,
    {
        let o = project_document(schema, &documents[i]);
        hits.push(o);
        i += 1;
    }
    let ghost hit_models = document_objects(schema@, documents@);
    proof {
        lemma_dyn_models(hits@);
        assert(dyn_models(hits@) =~= hit_models);
    }
    let count = hits.len() as u64;
    let mut total: Vec<(String, DynValue)> = Vec::new();
    push_named(&mut total, "value", DynValue::Unsigned(count));
    push_named(&mut total, "relation", DynValue::Str(copy_text("eq")));
    let mut inner: Vec<(String, DynValue)> = Vec::new();
    push_named(&mut inner, "total", DynValue::Object(total));
    push_named(&mut inner, "hits", DynValue::List(hits));
    let mut outer: Vec<(String, DynValue)> = Vec::new();
    push_named(&mut outer, "hits", DynValue::Object(inner));
    push_named(&mut outer, "aggregations", convert_aggregation_result_to_json(result, requests));
    let r = DynValue::Object(outer);
    proof {
        assert(dyn_entry_models(total@) =~= seq![
            ("value"@, DynModel::Unsigned(hit_models.len() as u64)),
            ("relation"@, DynModel::Str("eq"@)),
        ]);
        assert(dyn_entry_models(inner@) =~= seq![
            ("total"@, DynModel::Object(dyn_entry_models(total@))),
            ("hits"@, DynModel::List(hit_models)),
        ]);
        assert(dyn_entry_models(outer@) =~= seq![
            ("hits"@, DynModel::Object(dyn_entry_models(inner@))),
            (
                "aggregations"@,
                DynModel::Object(projected_results(result@, request_models(requests@))),
            ),
        ]);
    }
    r
}

} // verus!
