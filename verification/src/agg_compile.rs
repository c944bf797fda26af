//! Compiling an aggregation request against a schema into the typed
//! aggregations that the engine runs.
use vstd::prelude::*;
use crate::agg_request::{parse_aggregation_requests, parsed_requests, Parsed};
use crate::aggregation::{
    lemma_request_models, range_models, request_models, requests_once, text_views, AggregationError,
    AggregationErrorModel, AggregationOptionsModel, AggregationRequest, AggregationType,
    AggregationTypeModel, RangeSpec, RangeSpecModel, RequestModel,
};
use crate::schema::{has_field, FieldModel, Schema};
use crate::text::opt_text;

verus! {

/// A typed aggregation with every parameter settled.
#[derive(Debug, PartialEq)]
pub enum AggregationVariant {
    Terms { field: String, size: u32, min_doc_count: u64 },
    Histogram { field: String, interval: String, min_doc_count: u64, keyed: bool },
    DateHistogram { field: String, fixed_interval: String, min_doc_count: u64, keyed: bool },
    Range { field: String, ranges: Vec<RangeSpec>, keyed: bool },
    Average { field: String },
    Min { field: String },
    Max { field: String },
    Sum { field: String },
    Count { field: String },
    Stats { field: String },
    Percentiles { field: String, percents: Vec<String>, keyed: bool },
}

pub enum VariantModel {
    Terms { field: Seq<char>, size: u32, min_doc_count: u64 },
    Histogram { field: Seq<char>, interval: Seq<char>, min_doc_count: u64, keyed: bool },
    DateHistogram { field: Seq<char>, fixed_interval: Seq<char>, min_doc_count: u64, keyed: bool },
    Range { field: Seq<char>, ranges: Seq<RangeSpecModel>, keyed: bool },
    Average { field: Seq<char> },
    Min { field: Seq<char> },
    Max { field: Seq<char> },
    Sum { field: Seq<char> },
    Count { field: Seq<char> },
    Stats { field: Seq<char> },
    Percentiles { field: Seq<char>, percents: Seq<Seq<char>>, keyed: bool },
}

impl View for AggregationVariant {
    type V = VariantModel;

    open spec fn view(&self) -> VariantModel {
        match self {
            AggregationVariant::Terms { field, size, min_doc_count } => VariantModel::Terms {
                field: field@,
                size: *size,
                min_doc_count: *min_doc_count,
            },
            AggregationVariant::Histogram {
                field,
                interval,
                min_doc_count,
                keyed,
            } => VariantModel::Histogram {
                field: field@,
                interval: interval@,
                min_doc_count: *min_doc_count,
                keyed: *keyed,
            },
            AggregationVariant::DateHistogram {
                field,
                fixed_interval,
                min_doc_count,
                keyed,
            } => VariantModel::DateHistogram {
                field: field@,
                fixed_interval: fixed_interval@,
                min_doc_count: *min_doc_count,
                keyed: *keyed,
            },
            AggregationVariant::Range { field, ranges, keyed } => VariantModel::Range {
                field: field@,
                ranges: range_models(ranges@),
                keyed: *keyed,
            },
            AggregationVariant::Average { field } => VariantModel::Average { field: field@ },
            AggregationVariant::Min { field } => VariantModel::Min { field: field@ },
            AggregationVariant::Max { field } => VariantModel::Max { field: field@ },
            AggregationVariant::Sum { field } => VariantModel::Sum { field: field@ },
            AggregationVariant::Count { field } => VariantModel::Count { field: field@ },
            AggregationVariant::Stats { field } => VariantModel::Stats { field: field@ },
            AggregationVariant::Percentiles {
                field,
                percents,
                keyed,
            } => VariantModel::Percentiles {
                field: field@,
                percents: text_views(percents@),
                keyed: *keyed,
            },
        }
    }
}

/// A node of the typed aggregation tree: a named aggregation with the
/// aggregations that run inside each of its buckets.
#[derive(Debug, PartialEq)]
pub struct Aggregation {
    pub name: String,
    pub agg: AggregationVariant,
    pub sub_aggregation: Vec<Aggregation>,
}

pub struct AggregationModel {
    pub name: Seq<char>,
    pub agg: VariantModel,
    pub sub_aggregation: Seq<AggregationModel>,
}

pub open spec fn aggregation_model(a: Aggregation) -> AggregationModel
    decreases a,
{
    AggregationModel {
        name: a.name@,
        agg: a.agg@,
        sub_aggregation: aggregation_models(a.sub_aggregation@),
    }
}

pub open spec fn aggregation_models(xs: Seq<Aggregation>) -> Seq<AggregationModel>
    decreases xs,
{
    if xs.len() == 0 {
        Seq::empty()
    } else {
        aggregation_models(xs.drop_last()).push(aggregation_model(xs.last()))
    }
}

impl View for Aggregation {
    type V = AggregationModel;

    open spec fn view(&self) -> AggregationModel {
        aggregation_model(*self)
    }
}

/// The number of buckets of a terms aggregation where none is asked for.
pub const DEFAULT_TERMS_SIZE: u32 = 10;

/// The bucket size of a terms aggregation: what is asked for, at most what
/// the engine can count, or ten.
pub open spec fn terms_size(size: Option<u64>) -> u32 {
    match size {
        Some(n) => if n > u32::MAX {
            u32::MAX
        } else {
            n as u32
        },
        None => DEFAULT_TERMS_SIZE,
    }
}

pub open spec fn or_one(n: Option<u64>) -> u64 {
    match n {
        Some(x) => x,
        None => 1,
    }
}

pub open spec fn or_flag(b: Option<bool>, default: bool) -> bool {
    match b {
        Some(x) => x,
        None => default,
    }
}

/// The typed aggregation of a request node, every default filled in.
pub open spec fn variant_of(
    kind: AggregationTypeModel,
    field: Seq<char>,
    options: AggregationOptionsModel,
) -> VariantModel {
    match kind {
        AggregationTypeModel::Terms { size } => VariantModel::Terms {
            field,
            size: terms_size(size),
            min_doc_count: or_one(options.min_doc_count),
        },
        AggregationTypeModel::Histogram { interval } => VariantModel::Histogram {
            field,
            interval,
            min_doc_count: or_one(options.min_doc_count),
            keyed: or_flag(options.keyed, false),
        },
        AggregationTypeModel::DateHistogram { interval } => VariantModel::DateHistogram {
            field,
            fixed_interval: interval,
            min_doc_count: or_one(options.min_doc_count),
            keyed: or_flag(options.keyed, false),
        },
        AggregationTypeModel::Range { ranges } => VariantModel::Range {
            field,
            ranges,
            keyed: or_flag(options.keyed, false),
        },
        AggregationTypeModel::Avg => VariantModel::Average { field },
        AggregationTypeModel::Min => VariantModel::Min { field },
        AggregationTypeModel::Max => VariantModel::Max { field },
        AggregationTypeModel::Sum => VariantModel::Sum { field },
        AggregationTypeModel::Count => VariantModel::Count { field },
        AggregationTypeModel::Stats => VariantModel::Stats { field },
        AggregationTypeModel::Percentiles { percents } => VariantModel::Percentiles {
            field,
            percents,
            keyed: or_flag(options.keyed, true),
        },
    }
}

/// The typed aggregation tree of a request node, or the first field, the
/// node's own before those inside, that the schema does not have.
pub open spec fn compiled(fields: Seq<FieldModel>, r: RequestModel) -> Parsed<AggregationModel>
    decreases r,
{
    if !has_field(fields, r.field) {
        Err(AggregationErrorModel::UnknownField { name: r.name, field: r.field })
    } else {
        match compiled_all(fields, r.sub_aggregations) {
            Err(e) => Err(e),
            Ok(subs) => Ok(
                AggregationModel {
                    name: r.name,
                    agg: variant_of(r.aggregation_type, r.field, r.options),
                    sub_aggregation: subs,
                },
            ),
        }
    }
}

pub open spec fn compiled_all(fields: Seq<FieldModel>, rs: Seq<RequestModel>) -> Parsed<
    Seq<AggregationModel>,
>
    decreases rs,
{
    if rs.len() == 0 {
        Ok(Seq::empty())
    } else {
        match compiled_all(fields, rs.drop_last()) {
            Err(e) => Err(e),
            Ok(xs) => match compiled(fields, rs.last()) {
                Ok(x) => Ok(xs.push(x)),
                Err(e) => Err(e),
            },
        }
    }
}

pub open spec fn aggregation_result_model(r: Result<Aggregation, AggregationError>) -> Parsed<
    AggregationModel,
> {
    match r {
        Ok(a) => Ok(a@),
        Err(e) => Err(e@),
    }
}

pub open spec fn aggregations_result_model(r: Result<Vec<Aggregation>, AggregationError>) -> Parsed<
    Seq<AggregationModel>,
> {
    match r {
        Ok(a) => Ok(aggregation_models(a@)),
        Err(e) => Err(e@),
    }
}

/// An error among the first `n` nodes is the error of the whole.
pub proof fn lemma_compiled_error(fields: Seq<FieldModel>, rs: Seq<RequestModel>, n: int)
    requires
        0 <= n <= rs.len(),
        compiled_all(fields, rs.take(n)) is Err,
    ensures
        compiled_all(fields, rs) == compiled_all(fields, rs.take(n)),
    decreases rs.len(),
{
    if n < rs.len() {
        assert(rs.drop_last().take(n) =~= rs.take(n));
        lemma_compiled_error(fields, rs.drop_last(), n);
    } else {
        assert(rs.take(n) =~= rs);
    }
}

fn copy_opt(t: &Option<String>) -> (r: Option<String>)
    ensures
        opt_text(r) == opt_text(*t),
{
    match t {
        Some(s) => Some(s.clone()),
        None => None,
    }
}

fn copy_ranges(ranges: &Vec<RangeSpec>) -> (out: Vec<RangeSpec>)
    ensures
        range_models(out@) == range_models(ranges@),
{
    let mut out: Vec<RangeSpec> = Vec::new();
    let mut i: usize = 0;
    while i < ranges.len()
        invariant
            i <= ranges.len(),
            out.len() == i,
            forall|k: int| 0 <= k < i ==> (#[trigger] out@[k])@ == ranges@[k]@,
        decreases ranges.len() - i,
    {
        let r = &ranges[i];
        out.push(RangeSpec { from: copy_opt(&r.from), to: copy_opt(&r.to), key: copy_opt(&r.key) });
        i += 1;
    }
    proof {
        assert(range_models(out@) =~= range_models(ranges@));
    }
    out
}

fn copy_texts(texts: &Vec<String>) -> (out: Vec<String>)
    ensures
        text_views(out@) == text_views(texts@),
{
    let mut out: Vec<String> = Vec::new();
    let mut i: usize = 0;
    while i < texts.len()
        invariant
            i <= texts.len(),
            out.len() == i,
            forall|k: int| 0 <= k < i ==> (#[trigger] out@[k])@ == texts@[k]@,
        decreases texts.len() - i,
    {
        out.push(texts[i].clone());
        i += 1;
    }
    proof {
        assert(text_views(out@) =~= text_views(texts@));
    }
    out
}

fn settle_variant(request: &AggregationRequest) -> (v: AggregationVariant)
    ensures
        v@ == variant_of(request.aggregation_type@, request.field@, request.options@),
{
    let field = request.field.clone();
    let min_doc_count: u64 = match request.options.min_doc_count {
        Some(n) => n,
        None => 1,
    };
    match &request.aggregation_type {
        AggregationType::Terms { size } => {
            let size: u32 = match size {
                Some(n) => {
                    if *n > u32::MAX as u64 {
                        u32::MAX
                    } else {
                        *n as u32
                    }
                },
                None => DEFAULT_TERMS_SIZE,
            };
            AggregationVariant::Terms { field, size, min_doc_count }
        },
        AggregationType::Histogram { interval } => AggregationVariant::Histogram {
            field,
            interval: interval.clone(),
            min_doc_count,
            keyed: match request.options.keyed {
                Some(k) => k,
                None => false,
            },
        },
        AggregationType::DateHistogram { interval } => AggregationVariant::DateHistogram {
            field,
            fixed_interval: interval.clone(),
            min_doc_count,
            keyed: match request.options.keyed {
                Some(k) => k,
                None => false,
            },
        },
        AggregationType::Range { ranges } => AggregationVariant::Range {
            field,
            ranges: copy_ranges(ranges),
            keyed: match request.options.keyed {
                Some(k) => k,
                None => false,
            },
        },
        AggregationType::Avg => AggregationVariant::Average { field },
        AggregationType::Min => AggregationVariant::Min { field },
        AggregationType::Max => AggregationVariant::Max { field },
        AggregationType::Sum => AggregationVariant::Sum { field },
        AggregationType::Count => AggregationVariant::Count { field },
        AggregationType::Stats => AggregationVariant::Stats { field },
        AggregationType::Percentiles { percents } => AggregationVariant::Percentiles {
            field,
            percents: copy_texts(percents),
            keyed: match request.options.keyed {
                Some(k) => k,
                None => true,
            },
        },
    }
}

/// Compiles one request node, with the nodes inside it.
pub fn build_single_tantivy_aggregation(request: &AggregationRequest, schema: &Schema) -> (r:
    Result<Aggregation, AggregationError>)
    ensures
        aggregation_result_model(r) == compiled(schema@, request@),
    decreases request,
{
    if schema.get_field(request.field.as_str()).is_none() {
        return Err(
            AggregationError::UnknownField {
                name: request.name.clone(),
                field: request.field.clone(),
            },
        );
    }
    match build_sub_aggregations(&request.sub_aggregations, schema) {
        Err(e) => Err(e),
        Ok(sub_aggregation) => Ok(
            Aggregation { name: request.name.clone(), agg: settle_variant(request), sub_aggregation },
        ),
    }
}

/// Compiles the nodes inside a request node.
pub fn build_sub_aggregations(sub_requests: &Vec<AggregationRequest>, schema: &Schema) -> (r:
    Result<Vec<Aggregation>, AggregationError>)
    ensures
        aggregations_result_model(r) == compiled_all(schema@, request_models(sub_requests@)),
    decreases sub_requests,
{
    let ghost ms = request_models(sub_requests@);
    let mut out: Vec<Aggregation> = Vec::new();
    let mut i: usize = 0;
    proof {
        lemma_request_models(sub_requests@);
    }
    while i < sub_requests.len()
        invariant
            i <= sub_requests.len(),
            ms == request_models(sub_requests@),
            ms.len() == sub_requests@.len(),
            forall|k: int| 0 <= k < sub_requests@.len() ==> #[trigger] ms[k] == sub_requests@[k]@,
            compiled_all(schema@, ms.take(i as int)) == Ok::<
                Seq<AggregationModel>,
                AggregationErrorModel,
            >(aggregation_models(out@)),
        decreases sub_requests.len() - i,
    {
        proof {
            assert(ms.take(i + 1).drop_last() =~= ms.take(i as int));
            assert(ms.take(i + 1).last() == sub_requests@[i as int]@);
        }
        match build_single_tantivy_aggregation(&sub_requests[i], schema) {
            Ok(a) => {
                proof {
                    assert(out@.push(a).drop_last() =~= out@);
                }
                out.push(a);
            },
            Err(e) => {
                proof {
                    lemma_compiled_error(schema@, ms, i + 1);
                }
                return Err(e);
            },
        }
        i += 1;
    }
    proof {
        assert(ms.take(ms.len() as int) =~= ms);
    }
    Ok(out)
}

/// Compiles a request against a schema.
pub fn build_tantivy_aggregations(requests: &Vec<AggregationRequest>, schema: &Schema) -> (r:
    Result<Vec<Aggregation>, AggregationError>)
    ensures
        aggregations_result_model(r) == compiled_all(schema@, request_models(requests@)),
{
    build_sub_aggregations(requests, schema)
}

/// The typed aggregations of the request that a JSON text describes.
pub open spec fn compiled_text(fields: Seq<FieldModel>, text: Seq<char>) -> Parsed<
    Seq<AggregationModel>,
> {
    match parsed_requests(text) {
        Err(e) => Err(e),
        Ok(rs) => compiled_all(fields, rs),
    }
}

/// Reads a request from its JSON text and compiles it against a schema.
/// Gives the request as read, which the projection of results takes and
/// in which no two nodes have one name, and the typed aggregations.
pub fn compile_aggregations(schema: &Schema, json_str: &str) -> (r: Result<
    (Vec<AggregationRequest>, Vec<Aggregation>),
    AggregationError,
>)
    ensures
        match r {
            Ok(pair) => parsed_requests(json_str@) == Ok::<
                Seq<RequestModel>,
                AggregationErrorModel,
            >(request_models(pair.0@)) && requests_once(request_models(pair.0@)) && compiled_text(
                schema@,
                json_str@,
            ) == Ok::<Seq<AggregationModel>, AggregationErrorModel>(aggregation_models(pair.1@)),
            Err(e) => compiled_text(schema@, json_str@) == Err::<
                Seq<AggregationModel>,
                AggregationErrorModel,
            >(e@),
        },
{
    match parse_aggregation_requests(json_str) {
        Err(e) => Err(e),
        Ok(requests) => match build_tantivy_aggregations(&requests, schema) {
            Err(e) => Err(e),
            Ok(aggregations) => Ok((requests, aggregations)),
        },
    }
}

} // verus!
