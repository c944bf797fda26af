//! Reading an aggregation request from its loosely typed description.
use vstd::prelude::*;
use crate::aggregation::{
    as_count, as_number, as_text, as_truth, count_member, find_entry, get_member, member,
    number_member, range_models, request_models, text_member, text_views, truth_member,
    AggregationError, AggregationErrorModel, AggregationOptions, AggregationOptionsModel,
    requests_once, AggregationRequest, AggregationType, AggregationTypeModel, Parameter,
    RangeSpec, RangeSpecModel, RequestModel,
};
use crate::json::{json_of_text, parse_json};
use crate::project::{lemma_position, position};
use crate::text::{copy_text, same_text};
use crate::value::{
    dyn_entry_models, dyn_models, lemma_dyn_entry_models, lemma_dyn_models, well_formed,
    DynModel, DynValue,
};

verus! {

/// The key under which the aggregations inside the buckets stand.
pub open spec fn is_subs_key(key: Seq<char>) -> bool {
    key == "aggs"@ || key == "aggregations"@
}

/// Where the kind of an aggregation stands: the first entry that does not
/// hold the aggregations inside.
pub open spec fn kind_position(es: Seq<(Seq<char>, DynModel)>) -> Option<int>
    decreases es.len(),
{
    if es.len() == 0 {
        None
    } else {
        match kind_position(es.drop_last()) {
            Some(i) => Some(i),
            None => if !is_subs_key(es.last().0) {
                Some(es.len() - 1)
            } else {
                None
            },
        }
    }
}

pub proof fn lemma_kind_position(es: Seq<(Seq<char>, DynModel)>)
    ensures
        match kind_position(es) {
            Some(i) => 0 <= i < es.len() && !is_subs_key(es[i].0) && forall|k: int|
                0 <= k < i ==> is_subs_key((#[trigger] es[k]).0),
            None => forall|k: int| 0 <= k < es.len() ==> is_subs_key((#[trigger] es[k]).0),
        },
    decreases es.len(),
{
    if es.len() > 0 {
        lemma_kind_position(es.drop_last());
        match kind_position(es.drop_last()) {
            Some(i) => {
                assert(es.drop_last()[i] == es[i]);
                assert forall|k: int| 0 <= k < i implies is_subs_key((#[trigger] es[k]).0) by {
                    assert(es.drop_last()[k] == es[k]);
                }
            },
            None => {
                assert forall|k: int| 0 <= k < es.len() - 1 implies is_subs_key(
                    (#[trigger] es[k]).0,
                ) by {
                    assert(es.drop_last()[k] == es[k]);
                }
            },
        }
    }
}

/// Where the aggregations inside stand: under `aggs`, or else under
/// `aggregations`.
pub open spec fn subs_position(es: Seq<(Seq<char>, DynModel)>) -> Option<int> {
    match position(es, "aggs"@) {
        Some(i) => Some(i),
        None => position(es, "aggregations"@),
    }
}

pub type Parsed<T> = Result<T, AggregationErrorModel>;

pub open spec fn range_of(item: DynModel) -> RangeSpecModel {
    RangeSpecModel {
        from: as_number(member(item, "from"@)),
        to: as_number(member(item, "to"@)),
        key: as_text(member(item, "key"@)),
    }
}

/// The ranges of a range aggregation; each must be an object.
pub open spec fn parsed_ranges(name: Seq<char>, items: Seq<DynModel>) -> Parsed<
    Seq<RangeSpecModel>,
>
    decreases items.len(),
{
    if items.len() == 0 {
        Ok(Seq::empty())
    } else {
        match parsed_ranges(name, items.drop_last()) {
            Err(e) => Err(e),
            Ok(rs) => if items.last() is Object {
                Ok(rs.push(range_of(items.last())))
            } else {
                Err(AggregationErrorModel::InvalidParameter { name, parameter: Parameter::Range })
            },
        }
    }
}

/// The numbers among the items, in order; anything else is passed over.
pub open spec fn numbers_among(items: Seq<DynModel>) -> Seq<Seq<char>>
    decreases items.len(),
{
    if items.len() == 0 {
        Seq::empty()
    } else {
        match as_number(Some(items.last())) {
            Some(t) => numbers_among(items.drop_last()).push(t),
            None => numbers_among(items.drop_last()),
        }
    }
}

/// The percentile points that are taken where none are given.
pub open spec fn default_percents() -> Seq<Seq<char>> {
    seq!["1.0"@, "5.0"@, "25.0"@, "50.0"@, "75.0"@, "95.0"@, "99.0"@]
}

/// The interval of a date histogram: what stands under
/// `calendar_interval`, or else under `fixed_interval`.
pub open spec fn date_interval(config: DynModel) -> Option<Seq<char>> {
    as_text(
        match member(config, "calendar_interval"@) {
            Some(v) => Some(v),
            None => member(config, "fixed_interval"@),
        },
    )
}

/// The kind called `kind`, with its parameters from `config`.
pub open spec fn parsed_type(name: Seq<char>, kind: Seq<char>, config: DynModel) -> Parsed<
    AggregationTypeModel,
> {
    if kind == "terms"@ {
        Ok(AggregationTypeModel::Terms { size: as_count(member(config, "size"@)) })
    } else if kind == "histogram"@ {
        match as_number(member(config, "interval"@)) {
            Some(t) => Ok(AggregationTypeModel::Histogram { interval: t }),
            None => Err(
                AggregationErrorModel::MissingParameter { name, parameter: Parameter::Interval },
            ),
        }
    } else if kind == "date_histogram"@ {
        match date_interval(config) {
            Some(t) => Ok(AggregationTypeModel::DateHistogram { interval: t }),
            None => Err(
                AggregationErrorModel::MissingParameter { name, parameter: Parameter::Interval },
            ),
        }
    } else if kind == "range"@ {
        match member(config, "ranges"@) {
            None => Err(
                AggregationErrorModel::MissingParameter { name, parameter: Parameter::Ranges },
            ),
            Some(DynModel::List(items)) => match parsed_ranges(name, items) {
                Ok(rs) => Ok(AggregationTypeModel::Range { ranges: rs }),
                Err(e) => Err(e),
            },
            Some(_) => Err(
                AggregationErrorModel::InvalidParameter { name, parameter: Parameter::Ranges },
            ),
        }
    } else if kind == "avg"@ {
        Ok(AggregationTypeModel::Avg)
    } else if kind == "min"@ {
        Ok(AggregationTypeModel::Min)
    } else if kind == "max"@ {
        Ok(AggregationTypeModel::Max)
    } else if kind == "sum"@ {
        Ok(AggregationTypeModel::Sum)
    } else if kind == "count"@ {
        Ok(AggregationTypeModel::Count)
    } else if kind == "stats"@ {
        Ok(AggregationTypeModel::Stats)
    } else if kind == "percentiles"@ {
        Ok(
            AggregationTypeModel::Percentiles {
                percents: match member(config, "percents"@) {
                    Some(DynModel::List(items)) => numbers_among(items),
                    _ => default_percents(),
                },
            },
        )
    } else {
        Err(AggregationErrorModel::UnknownKind { name, kind })
    }
}

pub open spec fn parsed_options(config: DynModel) -> AggregationOptionsModel {
    AggregationOptionsModel {
        min_doc_count: as_count(member(config, "min_doc_count"@)),
        missing: as_text(member(config, "missing"@)),
        keyed: as_truth(member(config, "keyed"@)),
    }
}

/// The request node called `name` that a definition describes: its kind
/// from the first entry that is not the aggregations inside, its field and
/// options from what stands under the kind, and the aggregations inside
/// where they are given as an object.
pub open spec fn parsed_request(name: Seq<char>, def: DynModel) -> Parsed<RequestModel>
    decreases def,
    via parsed_request_terminates
{
    match def {
        DynModel::Object(es) => match kind_position(es) {
            None => Err(AggregationErrorModel::NoKind { name }),
            Some(k) => {
                let config = es[k].1;
                match parsed_type(name, es[k].0, config) {
                    Err(e) => Err(e),
                    Ok(aggregation_type) => match as_text(member(config, "field"@)) {
                        None => Err(
                            AggregationErrorModel::MissingParameter {
                                name,
                                parameter: Parameter::Field,
                            },
                        ),
                        Some(field) => {
                            let subs = match subs_position(es) {
                                Some(i) => match es[i].1 {
                                    DynModel::Object(inner) => parsed_all(inner),
                                    _ => Ok(Seq::empty()),
                                },
                                None => Ok(Seq::empty()),
                            };
                            match subs {
                                Err(e) => Err(e),
                                Ok(sub_aggregations) => Ok(
                                    RequestModel {
                                        name,
                                        aggregation_type,
                                        field,
                                        sub_aggregations,
                                        options: parsed_options(config),
                                    },
                                ),
                            }
                        },
                    },
                }
            },
        },
        _ => Err(AggregationErrorModel::DefinitionNotAnObject { name }),
    }
}

/// The request nodes of the entries of an object, each under its name. The
/// first entry that describes none decides the error.
pub open spec fn parsed_all(entries: Seq<(Seq<char>, DynModel)>) -> Parsed<Seq<RequestModel>>
    decreases entries,
{
    if entries.len() == 0 {
        Ok(Seq::empty())
    } else {
        match parsed_all(entries.drop_last()) {
            Err(e) => Err(e),
            Ok(rs) => match parsed_request(entries.last().0, entries.last().1) {
                Ok(r) => Ok(rs.push(r)),
                Err(e) => Err(e),
            },
        }
    }
}

#[via_fn]
proof fn parsed_request_terminates(name: Seq<char>, def: DynModel) {
    match def {
        DynModel::Object(es) => {
            lemma_position(es, "aggs"@);
            lemma_position(es, "aggregations"@);
            match subs_position(es) {
                Some(i) => {
                    assert(decreases_to!(es => es[i]));
                    assert(decreases_to!(def => es));
                },
                None => {},
            }
        },
        _ => {},
    }
}

/// The request that a JSON text describes.
pub open spec fn parsed_requests(text: Seq<char>) -> Parsed<Seq<RequestModel>> {
    match json_of_text(text) {
        None => Err(AggregationErrorModel::InvalidJson),
        Some(DynModel::Object(es)) => parsed_all(es),
        Some(_) => Err(AggregationErrorModel::NotAnObject),
    }
}

pub open spec fn type_result_model(r: Result<AggregationType, AggregationError>) -> Parsed<
    AggregationTypeModel,
> {
    match r {
        Ok(t) => Ok(t@),
        Err(e) => Err(e@),
    }
}

pub open spec fn request_result_model(r: Result<AggregationRequest, AggregationError>) -> Parsed<
    RequestModel,
> {
    match r {
        Ok(t) => Ok(t@),
        Err(e) => Err(e@),
    }
}

pub open spec fn requests_result_model(
    r: Result<Vec<AggregationRequest>, AggregationError>,
) -> Parsed<Seq<RequestModel>> {
    match r {
        Ok(t) => Ok(request_models(t@)),
        Err(e) => Err(e@),
    }
}

/// An error among the first `n` ranges is the error of the whole.
proof fn lemma_ranges_error(name: Seq<char>, items: Seq<DynModel>, n: int)
    requires
        0 <= n <= items.len(),
        parsed_ranges(name, items.take(n)) is Err,
    ensures
        parsed_ranges(name, items) == parsed_ranges(name, items.take(n)),
    decreases items.len(),
{
    if n < items.len() {
        assert(items.drop_last().take(n) =~= items.take(n));
        lemma_ranges_error(name, items.drop_last(), n);
    } else {
        assert(items.take(n) =~= items);
    }
}

/// An error among the first `n` entries is the error of the whole.
pub proof fn lemma_parsed_error(entries: Seq<(Seq<char>, DynModel)>, n: int)
    requires
        0 <= n <= entries.len(),
        parsed_all(entries.take(n)) is Err,
    ensures
        parsed_all(entries) == parsed_all(entries.take(n)),
    decreases entries.len(),
{
    if n < entries.len() {
        assert(entries.drop_last().take(n) =~= entries.take(n));
        lemma_parsed_error(entries.drop_last(), n);
    } else {
        assert(entries.take(n) =~= entries);
    }
}

fn parse_ranges(name: &str, items: &Vec<DynValue>) -> (r: Result<Vec<RangeSpec>, AggregationError>)
    ensures
        match r {
            Ok(rs) => parsed_ranges(name@, dyn_models(items@)) == Ok::<
                Seq<RangeSpecModel>,
                AggregationErrorModel,
            >(range_models(rs@)),
            Err(e) => parsed_ranges(name@, dyn_models(items@)) == Err::<
                Seq<RangeSpecModel>,
                AggregationErrorModel,
            >(e@),
        },
{
    let ghost ms = dyn_models(items@);
    let mut out: Vec<RangeSpec> = Vec::new();
    let mut i: usize = 0;
    proof {
        lemma_dyn_models(items@);
        assert(range_models(out@) =~= Seq::<RangeSpecModel>::empty());
    }
    while i < items.len()
        invariant
            i <= items.len(),
            ms == dyn_models(items@),
            ms.len() == items@.len(),
            forall|k: int| 0 <= k < items@.len() ==> #[trigger] ms[k] == items@[k]@,
            parsed_ranges(name@, ms.take(i as int)) == Ok::<
                Seq<RangeSpecModel>,
                AggregationErrorModel,
            >(range_models(out@)),
        decreases items.len() - i,
    {
        proof {
            assert(ms.take(i + 1).drop_last() =~= ms.take(i as int));
            assert(ms.take(i + 1).last() == items@[i as int]@);
        }
        let item = &items[i];
        match item {
            DynValue::Object(_) => {
                let spec_ = RangeSpec {
                    from: number_member(get_member(item, "from")),
                    to: number_member(get_member(item, "to")),
                    key: text_member(get_member(item, "key")),
                };
                proof {
                    assert(range_models(out@.push(spec_)) =~= range_models(out@).push(spec_@));
                }
                out.push(spec_);
            },
            _ => {
                proof {
                    lemma_ranges_error(name@, ms, i + 1);
                }
                return Err(
                    AggregationError::InvalidParameter {
                        name: copy_text(name),
                        parameter: Parameter::Range,
                    },
                );
            },
        }
        i += 1;
    }
    proof {
        assert(ms.take(ms.len() as int) =~= ms);
    }
    Ok(out)
}

fn collect_numbers(items: &Vec<DynValue>) -> (out: Vec<String>)
    ensures
        text_views(out@) == numbers_among(dyn_models(items@)),
{
    let ghost ms = dyn_models(items@);
    let mut out: Vec<String> = Vec::new();
    let mut i: usize = 0;
    proof {
        lemma_dyn_models(items@);
        assert(text_views(out@) =~= Seq::<Seq<char>>::empty());
    }
    while i < items.len()
        invariant
            i <= items.len(),
            ms == dyn_models(items@),
            ms.len() == items@.len(),
            forall|k: int| 0 <= k < items@.len() ==> #[trigger] ms[k] == items@[k]@,
            text_views(out@) == numbers_among(ms.take(i as int)),
        decreases items.len() - i,
    {
        proof {
            assert(ms.take(i + 1).drop_last() =~= ms.take(i as int));
            assert(ms.take(i + 1).last() == items@[i as int]@);
        }
        match number_member(Some(&items[i])) {
            Some(t) => {
                proof {
                    assert(text_views(out@.push(t)) =~= text_views(out@).push(t@));
                }
                out.push(t);
            },
            None => {},
        }
        i += 1;
    }
    proof {
        assert(ms.take(ms.len() as int) =~= ms);
    }
    out
}

fn standard_percents() -> (out: Vec<String>)
    ensures
        text_views(out@) == default_percents(),
{
    let mut out: Vec<String> = Vec::new();
    out.push(copy_text("1.0"));
    out.push(copy_text("5.0"));
    out.push(copy_text("25.0"));
    out.push(copy_text("50.0"));
    out.push(copy_text("75.0"));
    out.push(copy_text("95.0"));
    out.push(copy_text("99.0"));
    proof {
        assert(text_views(out@) =~= default_percents());
    }
    out
}

/// Reads the kind of an aggregation and what only that kind takes.
pub fn parse_aggregation_type(name: &str, kind: &str, config: &DynValue) -> (r: Result<
    AggregationType,
    AggregationError,
>)
    ensures
        type_result_model(r) == parsed_type(name@, kind@, config@),
{
    if same_text(kind, "terms") {
        Ok(AggregationType::Terms { size: count_member(get_member(config, "size")) })
    } else if same_text(kind, "histogram") {
        match number_member(get_member(config, "interval")) {
            Some(interval) => Ok(AggregationType::Histogram { interval }),
            None => Err(
                AggregationError::MissingParameter {
                    name: copy_text(name),
                    parameter: Parameter::Interval,
                },
            ),
        }
    } else if same_text(kind, "date_histogram") {
        let chosen = match get_member(config, "calendar_interval") {
            Some(v) => Some(v),
            None => get_member(config, "fixed_interval"),
        };
        match text_member(chosen) {
            Some(interval) => Ok(AggregationType::DateHistogram { interval }),
            None => Err(
                AggregationError::MissingParameter {
                    name: copy_text(name),
                    parameter: Parameter::Interval,
                },
            ),
        }
    } else if same_text(kind, "range") {
        match get_member(config, "ranges") {
            None => Err(
                AggregationError::MissingParameter {
                    name: copy_text(name),
                    parameter: Parameter::Ranges,
                },
            ),
            Some(DynValue::List(items)) => {
                proof {
                    lemma_dyn_models(items@);
                }
                match parse_ranges(name, items) {
                    Ok(ranges) => Ok(AggregationType::Range { ranges }),
                    Err(e) => Err(e),
                }
            },
            Some(_) => Err(
                AggregationError::InvalidParameter {
                    name: copy_text(name),
                    parameter: Parameter::Ranges,
                },
            ),
        }
    } else if same_text(kind, "avg") {
        Ok(AggregationType::Avg)
    } else if same_text(kind, "min") {
        Ok(AggregationType::Min)
    } else if same_text(kind, "max") {
        Ok(AggregationType::Max)
    } else if same_text(kind, "sum") {
        Ok(AggregationType::Sum)
    } else if same_text(kind, "count") {
        Ok(AggregationType::Count)
    } else if same_text(kind, "stats") {
        Ok(AggregationType::Stats)
    } else if same_text(kind, "percentiles") {
        let percents = match get_member(config, "percents") {
            Some(DynValue::List(items)) => collect_numbers(items),
            _ => standard_percents(),
        };
        Ok(AggregationType::Percentiles { percents })
    } else {
        Err(AggregationError::UnknownKind { name: copy_text(name), kind: copy_text(kind) })
    }
}

/// Reads what any aggregation may carry.
pub fn parse_aggregation_options(config: &DynValue) -> (r: AggregationOptions)
    ensures
        r@ == parsed_options(config@),
{
    AggregationOptions {
        min_doc_count: count_member(get_member(config, "min_doc_count")),
        missing: text_member(get_member(config, "missing")),
        keyed: truth_member(get_member(config, "keyed")),
    }
}

fn find_kind(entries: &Vec<(String, DynValue)>) -> (r: Option<usize>)
    ensures
        match r {
            Some(i) => kind_position(dyn_entry_models(entries@)) == Some(i as int) && i
                < entries.len(),
            None => kind_position(dyn_entry_models(entries@)) is None,
        },
{
    let ghost ms = dyn_entry_models(entries@);
    proof {
        lemma_dyn_entry_models(entries@);
        lemma_kind_position(ms);
    }
    let mut i: usize = 0;
    while i < entries.len()
        invariant
            i <= entries.len(),
            ms == dyn_entry_models(entries@),
            ms.len() == entries@.len(),
            forall|k: int|
                0 <= k < entries@.len() ==> #[trigger] ms[k] == (entries@[k].0@, entries@[k].1@),
            forall|k: int| 0 <= k < i ==> is_subs_key((#[trigger] ms[k]).0),
            match kind_position(ms) {
                Some(p) => 0 <= p < ms.len() && !is_subs_key(ms[p].0) && forall|k: int|
                    0 <= k < p ==> is_subs_key((#[trigger] ms[k]).0),
                None => forall|k: int| 0 <= k < ms.len() ==> is_subs_key((#[trigger] ms[k]).0),
            },
        decreases entries.len() - i,
    {
        let key = entries[i].0.as_str();
        if !(same_text(key, "aggs") || same_text(key, "aggregations")) {
            proof {
                assert(!is_subs_key(ms[i as int].0));
            }
            return Some(i);
        }
        i += 1;
    }
    None
}

fn find_subs(entries: &Vec<(String, DynValue)>) -> (r: Option<usize>)
    ensures
        match r {
            Some(i) => subs_position(dyn_entry_models(entries@)) == Some(i as int) && i
                < entries.len(),
            None => subs_position(dyn_entry_models(entries@)) is None,
        },
{
    match find_entry(entries, "aggs") {
        Some(i) => Some(i),
        None => find_entry(entries, "aggregations"),
    }
}

/// Reads the request node called `name` from its definition.
#[verifier::loop_isolation(false)]
pub fn parse_single_aggregation(name: String, agg_def: &DynValue) -> (r: Result<
    AggregationRequest,
    AggregationError,
>)
    ensures
        request_result_model(r) == parsed_request(name@, agg_def@),
    decreases agg_def,
{
    match agg_def {
        DynValue::Object(entries) => {
            let ghost es = dyn_entry_models(entries@);
            proof {
                lemma_dyn_entry_models(entries@);
            }
            match find_kind(entries) {
                None => Err(AggregationError::NoKind { name }),
                Some(k) => {
                    let config = &entries[k].1;
                    let aggregation_type = match parse_aggregation_type(
                        name.as_str(),
                        entries[k].0.as_str(),
                        config,
                    ) {
                        Ok(t) => t,
                        Err(e) => {
                            return Err(e);
                        },
                    };
                    let field = match text_member(get_member(config, "field")) {
                        Some(f) => f,
                        None => {
                            return Err(
                                AggregationError::MissingParameter {
                                    name,
                                    parameter: Parameter::Field,
                                },
                            );
                        },
                    };
                    let options = parse_aggregation_options(config);
                    let mut sub_aggregations: Vec<AggregationRequest> = Vec::new();
                    match find_subs(entries) {
                        Some(i) => match &entries[i].1 {
                            DynValue::Object(inner) => {
                                let ghost ms = dyn_entry_models(inner@);
                                proof {
                                    lemma_dyn_entry_models(inner@);
                                    assert(es[i as int].1 == DynModel::Object(ms));
                                }
                                let mut j: usize = 0;
                                while j < inner.len()
                                    invariant
                                        j <= inner.len(),
                                        parsed_all(ms.take(j as int)) == Ok::<
                                            Seq<RequestModel>,
                                            AggregationErrorModel,
                                        >(request_models(sub_aggregations@)),
                                    decreases inner.len() - j,
                                {
                                    proof {
                                        assert(ms.take(j + 1).drop_last() =~= ms.take(j as int));
                                        assert(ms.take(j + 1).last() == (
                                            inner@[j as int].0@,
                                            inner@[j as int].1@,
                                        ));
                                    }
                                    match parse_single_aggregation(
                                        inner[j].0.clone(),
                                        &inner[j].1,
                                    ) {
                                        Ok(sub) => {
                                            proof {
                                                assert(sub_aggregations@.push(sub).drop_last()
                                                    =~= sub_aggregations@);
                                            }
                                            sub_aggregations.push(sub);
                                        },
                                        Err(e) => {
                                            proof {
                                                lemma_parsed_error(ms, j + 1);
                                            }
                                            return Err(e);
                                        },
                                    }
                                    j += 1;
                                }
                                proof {
                                    assert(ms.take(ms.len() as int) =~= ms);
                                }
                            },
                            _ => {},
                        },
                        None => {},
                    }
                    Ok(
                        AggregationRequest {
                            name,
                            aggregation_type,
                            field,
                            sub_aggregations,
                            options,
                        },
                    )
                },
            }
        },
        _ => Err(AggregationError::DefinitionNotAnObject { name }),
    }
}

/// Reads the request nodes of the entries of an object.
pub fn parse_aggregation_tree(entries: &Vec<(String, DynValue)>) -> (r: Result<
    Vec<AggregationRequest>,
    AggregationError,
>)
    ensures
        requests_result_model(r) == parsed_all(dyn_entry_models(entries@)),
{
    let ghost ms = dyn_entry_models(entries@);
    let mut out: Vec<AggregationRequest> = Vec::new();
    let mut j: usize = 0;
    proof {
        lemma_dyn_entry_models(entries@);
    }
    while j < entries.len()
        invariant
            j <= entries.len(),
            ms == dyn_entry_models(entries@),
            ms.len() == entries@.len(),
            forall|k: int|
                0 <= k < entries@.len() ==> #[trigger] ms[k] == (entries@[k].0@, entries@[k].1@),
            parsed_all(ms.take(j as int)) == Ok::<Seq<RequestModel>, AggregationErrorModel>(
                request_models(out@),
            ),
        decreases entries.len() - j,
    {
        proof {
            assert(ms.take(j + 1).drop_last() =~= ms.take(j as int));
            assert(ms.take(j + 1).last() == (entries@[j as int].0@, entries@[j as int].1@));
        }
        match parse_single_aggregation(entries[j].0.clone(), &entries[j].1) {
            Ok(request) => {
                proof {
                    assert(out@.push(request).drop_last() =~= out@);
                }
                out.push(request);
            },
            Err(e) => {
                proof {
                    lemma_parsed_error(ms, j + 1);
                }
                return Err(e);
            },
        }
        j += 1;
    }
    proof {
        assert(ms.take(ms.len() as int) =~= ms);
    }
    Ok(out)
}

/// Reads a request from a loosely typed value that holds it.
pub fn requests_from_value(value: Option<DynValue>) -> (r: Result<
    Vec<AggregationRequest>,
    AggregationError,
>)
    ensures
        requests_result_model(r) == (match value {
            None => Err(AggregationErrorModel::InvalidJson),
            Some(v) => match v@ {
                DynModel::Object(es) => parsed_all(es),
                _ => Err(AggregationErrorModel::NotAnObject),
            },
        }),
{
    match value {
        None => Err(AggregationError::InvalidJson),
        Some(DynValue::Object(entries)) => parse_aggregation_tree(&entries),
        Some(_) => Err(AggregationError::NotAnObject),
    }
}

/// The requests of a description stand in the order of its entries, each
/// under the key of its entry: where no key stands twice in the
/// description, no two requests have one name.
pub proof fn law_request_names(entries: Seq<(Seq<char>, DynModel)>)
    requires
        parsed_all(entries) is Ok,
    ensures
        parsed_all(entries)->Ok_0.len() == entries.len(),
        forall|i: int|
            0 <= i < entries.len() ==> (#[trigger] parsed_all(entries)->Ok_0[i]).name
                == entries[i].0,
    decreases entries.len(),
{
    if entries.len() > 0 {
        let before = entries.drop_last();
        law_request_names(before);
        assert forall|i: int| 0 <= i < entries.len() implies (#[trigger] parsed_all(
            entries,
        )->Ok_0[i]).name == entries[i].0 by {
            if i < before.len() {
                assert(parsed_all(entries)->Ok_0[i] == parsed_all(before)->Ok_0[i]);
                assert(before[i] == entries[i]);
            } else {
                let r = parsed_request(entries.last().0, entries.last().1);
                assert(parsed_all(entries)->Ok_0[i] == r->Ok_0);
                assert(r->Ok_0.name == entries.last().0);
            }
        }
    }
}

proof fn lemma_request_once(name: Seq<char>, def: DynModel)
    requires
        well_formed(def),
        parsed_request(name, def) is Ok,
    ensures
        requests_once(parsed_request(name, def)->Ok_0.sub_aggregations),
    decreases def,
{
    match def {
        DynModel::Object(es) => {
            lemma_position(es, "aggs"@);
            lemma_position(es, "aggregations"@);
            match subs_position(es) {
                Some(i) => {
                    match es[i].1 {
                        DynModel::Object(inner) => {
                            assert(well_formed(es[i].1));
                            assert(decreases_to!(def => es));
                            assert(decreases_to!(es => es[i]));
                            law_requests_once(inner);
                        },
                        _ => {},
                    }
                },
                None => {},
            }
        },
        _ => {},
    }
}

/// A well formed description gives well formed requests: where no object
/// of the description holds a key twice, no two request nodes have one
/// name, at any depth.
pub proof fn law_requests_once(entries: Seq<(Seq<char>, DynModel)>)
    requires
        well_formed(DynModel::Object(entries)),
        parsed_all(entries) is Ok,
    ensures
        requests_once(parsed_all(entries)->Ok_0),
    decreases entries,
{
    law_request_names(entries);
    let rs = parsed_all(entries)->Ok_0;
    assert forall|i: int, j: int| 0 <= i < j < rs.len() implies rs[i].name != rs[j].name by {
        assert(entries[i].0 != entries[j].0);
    }
    lemma_requests_in_order(entries);
    assert forall|i: int| 0 <= i < rs.len() implies requests_once(
        (#[trigger] rs[i]).sub_aggregations,
    ) by {
        assert(well_formed(entries[i].1));
        lemma_request_once(entries[i].0, entries[i].1);
    }
}

/// Each request is read from the entry in its place.
proof fn lemma_requests_in_order(entries: Seq<(Seq<char>, DynModel)>)
    requires
        parsed_all(entries) is Ok,
    ensures
        parsed_all(entries)->Ok_0.len() == entries.len(),
        forall|i: int|
            0 <= i < entries.len() ==> parsed_request(entries[i].0, entries[i].1) == Ok::<
                RequestModel,
                AggregationErrorModel,
            >(#[trigger] parsed_all(entries)->Ok_0[i]),
    decreases entries.len(),
{
    if entries.len() > 0 {
        let before = entries.drop_last();
        lemma_requests_in_order(before);
        assert forall|i: int| 0 <= i < entries.len() implies parsed_request(
            entries[i].0,
            entries[i].1,
        ) == Ok::<RequestModel, AggregationErrorModel>(#[trigger] parsed_all(entries)->Ok_0[i]) by {
            if i < before.len() {
                assert(parsed_all(entries)->Ok_0[i] == parsed_all(before)->Ok_0[i]);
                assert(before[i] == entries[i]);
            }
        }
    }
}

/// Reads a request from its JSON text. No two of its nodes have one name,
/// at any depth.
pub fn parse_aggregation_requests(json_str: &str) -> (r: Result<
    Vec<AggregationRequest>,
    AggregationError,
>)
    ensures
        requests_result_model(r) == parsed_requests(json_str@),
        r matches Ok(rs) ==> requests_once(request_models(rs@)),
{
    let value = parse_json(json_str);
    proof {
        if value is Some && value->0@ is Object && parsed_all(value->0@->Object_0) is Ok {
            law_requests_once(value->0@->Object_0);
        }
    }
    requests_from_value(value)
}

} // verus!
