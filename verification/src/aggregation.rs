//! Aggregations: reading a request from its loosely typed description,
//! compiling it against a schema, and projecting results.
use vstd::prelude::*;
use crate::project::position;
use crate::text::{decimal_of, i64_to_text, opt_text, same_text, signed_decimal_of, u64_to_text};
use crate::value::{dyn_entry_models, lemma_dyn_entry_models, DynModel, DynValue};

verus! {

/// One range of a range aggregation. The bounds hold decimal literals.
#[derive(Debug, PartialEq)]
pub struct RangeSpec {
    pub from: Option<String>,
    pub to: Option<String>,
    pub key: Option<String>,
}

pub struct RangeSpecModel {
    pub from: Option<Seq<char>>,
    pub to: Option<Seq<char>>,
    pub key: Option<Seq<char>>,
}

impl View for RangeSpec {
    type V = RangeSpecModel;

    open spec fn view(&self) -> RangeSpecModel {
        RangeSpecModel { from: opt_text(self.from), to: opt_text(self.to), key: opt_text(self.key) }
    }
}

pub open spec fn range_models(rs: Seq<RangeSpec>) -> Seq<RangeSpecModel> {
    rs.map_values(|r: RangeSpec| r@)
}

pub open spec fn text_views(ts: Seq<String>) -> Seq<Seq<char>> {
    ts.map_values(|t: String| t@)
}

/// The kind of an aggregation, with what only that kind takes. Intervals
/// and percentile points hold decimal literals.
#[derive(Debug, PartialEq)]
pub enum AggregationType {
    Terms { size: Option<u64> },
    Histogram { interval: String },
    DateHistogram { interval: String },
    Range { ranges: Vec<RangeSpec> },
    Avg,
    Min,
    Max,
    Sum,
    Count,
    Stats,
    Percentiles { percents: Vec<String> },
}

pub enum AggregationTypeModel {
    Terms { size: Option<u64> },
    Histogram { interval: Seq<char> },
    DateHistogram { interval: Seq<char> },
    Range { ranges: Seq<RangeSpecModel> },
    Avg,
    Min,
    Max,
    Sum,
    Count,
    Stats,
    Percentiles { percents: Seq<Seq<char>> },
}

impl View for AggregationType {
    type V = AggregationTypeModel;

    open spec fn view(&self) -> AggregationTypeModel {
        match self {
            AggregationType::Terms { size } => AggregationTypeModel::Terms { size: *size },
            AggregationType::Histogram { interval } => AggregationTypeModel::Histogram {
                interval: interval@,
            },
            AggregationType::DateHistogram { interval } => AggregationTypeModel::DateHistogram {
                interval: interval@,
            },
            AggregationType::Range { ranges } => AggregationTypeModel::Range {
                ranges: range_models(ranges@),
            },
            AggregationType::Avg => AggregationTypeModel::Avg,
            AggregationType::Min => AggregationTypeModel::Min,
            AggregationType::Max => AggregationTypeModel::Max,
            AggregationType::Sum => AggregationTypeModel::Sum,
            AggregationType::Count => AggregationTypeModel::Count,
            AggregationType::Stats => AggregationTypeModel::Stats,
            AggregationType::Percentiles { percents } => AggregationTypeModel::Percentiles {
                percents: text_views(percents@),
            },
        }
    }
}

/// What any aggregation may carry.
#[derive(Debug, Default, PartialEq)]
pub struct AggregationOptions {
    pub min_doc_count: Option<u64>,
    pub missing: Option<String>,
    pub keyed: Option<bool>,
}

pub struct AggregationOptionsModel {
    pub min_doc_count: Option<u64>,
    pub missing: Option<Seq<char>>,
    pub keyed: Option<bool>,
}

impl View for AggregationOptions {
    type V = AggregationOptionsModel;

    open spec fn view(&self) -> AggregationOptionsModel {
        AggregationOptionsModel {
            min_doc_count: self.min_doc_count,
            missing: opt_text(self.missing),
            keyed: self.keyed,
        }
    }
}

/// A node of a request: a named aggregation over a field, with the
/// aggregations to run inside each of its buckets.
#[derive(Debug, PartialEq)]
pub struct AggregationRequest {
    pub name: String,
    pub aggregation_type: AggregationType,
    pub field: String,
    pub sub_aggregations: Vec<AggregationRequest>,
    pub options: AggregationOptions,
}

pub struct RequestModel {
    pub name: Seq<char>,
    pub aggregation_type: AggregationTypeModel,
    pub field: Seq<char>,
    pub sub_aggregations: Seq<RequestModel>,
    pub options: AggregationOptionsModel,
}

/// Whether no two of the request nodes have one name, neither here nor
/// inside any of them. Every function takes requests where two have; the
/// first node of a name is then the one that is found.
pub open spec fn requests_once(rs: Seq<RequestModel>) -> bool
    decreases rs,
{
    &&& forall|i: int, j: int| 0 <= i < j < rs.len() ==> rs[i].name != rs[j].name
    &&& forall|i: int| 0 <= i < rs.len() ==> requests_once((#[trigger] rs[i]).sub_aggregations)
}

pub open spec fn request_model(r: AggregationRequest) -> RequestModel
    decreases r,
{
    RequestModel {
        name: r.name@,
        aggregation_type: r.aggregation_type@,
        field: r.field@,
        sub_aggregations: request_models(r.sub_aggregations@),
        options: r.options@,
    }
}

pub open spec fn request_models(rs: Seq<AggregationRequest>) -> Seq<RequestModel>
    decreases rs,
{
    if rs.len() == 0 {
        Seq::empty()
    } else {
        request_models(rs.drop_last()).push(request_model(rs.last()))
    }
}

impl View for AggregationRequest {
    type V = RequestModel;

    open spec fn view(&self) -> RequestModel {
        request_model(*self)
    }
}

pub proof fn lemma_request_models(rs: Seq<AggregationRequest>)
    ensures
        request_models(rs).len() == rs.len(),
        forall|i: int| 0 <= i < rs.len() ==> #[trigger] request_models(rs)[i] == rs[i]@,
    decreases rs.len(),
{
    if rs.len() > 0 {
        lemma_request_models(rs.drop_last());
    }
}

/// A parameter of an aggregation.
#[derive(Clone, Copy, Debug, PartialEq, Eq, Structural)]
pub enum Parameter {
    Field,
    Interval,
    Ranges,
    Range,
}

/// Why a request could not be read or compiled. Each error names the
/// aggregation that it is about.
#[derive(Debug, PartialEq)]
pub enum AggregationError {
    /// The text is no JSON.
    InvalidJson,
    /// The request is no object of named aggregations.
    NotAnObject,
    /// The definition of an aggregation is no object.
    DefinitionNotAnObject { name: String },
    /// The definition names no kind.
    NoKind { name: String },
    /// The kind is none that is known.
    UnknownKind { name: String, kind: String },
    /// A parameter that the kind needs is missing.
    MissingParameter { name: String, parameter: Parameter },
    /// A parameter has a shape that it must not have.
    InvalidParameter { name: String, parameter: Parameter },
    /// The schema has no field of this name.
    UnknownField { name: String, field: String },
}

pub enum AggregationErrorModel {
    InvalidJson,
    NotAnObject,
    DefinitionNotAnObject { name: Seq<char> },
    NoKind { name: Seq<char> },
    UnknownKind { name: Seq<char>, kind: Seq<char> },
    MissingParameter { name: Seq<char>, parameter: Parameter },
    InvalidParameter { name: Seq<char>, parameter: Parameter },
    UnknownField { name: Seq<char>, field: Seq<char> },
}

impl View for AggregationError {
    type V = AggregationErrorModel;

    open spec fn view(&self) -> AggregationErrorModel {
        match self {
            AggregationError::InvalidJson => AggregationErrorModel::InvalidJson,
            AggregationError::NotAnObject => AggregationErrorModel::NotAnObject,
            AggregationError::DefinitionNotAnObject {
                name,
            } => AggregationErrorModel::DefinitionNotAnObject { name: name@ },
            AggregationError::NoKind { name } => AggregationErrorModel::NoKind { name: name@ },
            AggregationError::UnknownKind { name, kind } => AggregationErrorModel::UnknownKind {
                name: name@,
                kind: kind@,
            },
            AggregationError::MissingParameter {
                name,
                parameter,
            } => AggregationErrorModel::MissingParameter { name: name@, parameter: *parameter },
            AggregationError::InvalidParameter {
                name,
                parameter,
            } => AggregationErrorModel::InvalidParameter { name: name@, parameter: *parameter },
            AggregationError::UnknownField { name, field } => AggregationErrorModel::UnknownField {
                name: name@,
                field: field@,
            },
        }
    }
}

/// The value under `key` of an object; none of anything else.
pub open spec fn member(v: DynModel, key: Seq<char>) -> Option<DynModel> {
    match v {
        DynModel::Object(es) => match position(es, key) {
            Some(i) => Some(es[i].1),
            None => None,
        },
        _ => None,
    }
}

pub open spec fn as_text(v: Option<DynModel>) -> Option<Seq<char>> {
    match v {
        Some(DynModel::Str(s)) => Some(s),
        _ => None,
    }
}

/// A count: an integer that is not negative.
pub open spec fn as_count(v: Option<DynModel>) -> Option<u64> {
    match v {
        Some(DynModel::Unsigned(u)) => Some(u),
        Some(DynModel::Signed(i)) => if i >= 0 {
            Some(i as u64)
        } else {
            None
        },
        _ => None,
    }
}

/// The decimal literal of a number of any kind.
pub open spec fn as_number(v: Option<DynModel>) -> Option<Seq<char>> {
    match v {
        Some(DynModel::Unsigned(u)) => Some(decimal_of(u as nat)),
        Some(DynModel::Signed(i)) => Some(signed_decimal_of(i as int)),
        Some(DynModel::Float(t)) => Some(t),
        _ => None,
    }
}

pub open spec fn as_truth(v: Option<DynModel>) -> Option<bool> {
    match v {
        Some(DynModel::Bool(b)) => Some(b),
        _ => None,
    }
}

pub open spec fn value_model(v: Option<&DynValue>) -> Option<DynModel> {
    match v {
        Some(x) => Some(x@),
        None => None,
    }
}

/// Where the first entry under `key` stands in the entries of an object.
pub fn find_entry(entries: &Vec<(String, DynValue)>, key: &str) -> (r: Option<usize>)
    ensures
        match r {
            Some(i) => position(dyn_entry_models(entries@), key@) == Some(i as int) && i
                < entries.len(),
            None => position(dyn_entry_models(entries@), key@) is None,
        },
{
    let ghost ms = dyn_entry_models(entries@);
    proof {
        lemma_dyn_entry_models(entries@);
    }
    let mut i: usize = 0;
    while i < entries.len()
        invariant
            i <= entries.len(),
            ms == dyn_entry_models(entries@),
            ms.len() == entries@.len(),
            forall|k: int|
                0 <= k < entries@.len() ==> #[trigger] ms[k] == (entries@[k].0@, entries@[k].1@),
            forall|k: int| 0 <= k < i ==> (#[trigger] ms[k]).0 != key@,
        decreases entries.len() - i,
    {
        if same_text(entries[i].0.as_str(), key) {
            proof {
                crate::project::lemma_position_found(ms, key@, i as int);
            }
            return Some(i);
        }
        i += 1;
    }
    proof {
        crate::project::lemma_position_absent(ms, key@);
    }
    None
}

/// The value under `key` of an object.
pub fn get_member<'a>(v: &'a DynValue, key: &str) -> (r: Option<&'a DynValue>)
    ensures
        value_model(r) == member(v@, key@),
{
    match v {
        DynValue::Object(entries) => match find_entry(entries, key) {
            Some(i) => {
                proof {
                    lemma_dyn_entry_models(entries@);
                }
                Some(&entries[i].1)
            },
            None => None,
        },
        _ => None,
    }
}

pub fn text_member(v: Option<&DynValue>) -> (r: Option<String>)
    ensures
        opt_text(r) == as_text(value_model(v)),
{
    match v {
        Some(DynValue::Str(s)) => Some(s.clone()),
        _ => None,
    }
}

pub fn count_member(v: Option<&DynValue>) -> (r: Option<u64>)
    ensures
        r == as_count(value_model(v)),
{
    match v {
        Some(DynValue::Unsigned(u)) => Some(*u),
        Some(DynValue::Signed(i)) => {
            if *i >= 0 {
                Some(*i as u64)
            } else {
                None
            }
        },
        _ => None,
    }
}

pub fn number_member(v: Option<&DynValue>) -> (r: Option<String>)
    ensures
        opt_text(r) == as_number(value_model(v)),
{
    match v {
        Some(DynValue::Unsigned(u)) => Some(u64_to_text(*u)),
        Some(DynValue::Signed(i)) => Some(i64_to_text(*i)),
        Some(DynValue::Float(t)) => Some(t.clone()),
        _ => None,
    }
}

pub fn truth_member(v: Option<&DynValue>) -> (r: Option<bool>)
    ensures
        r == as_truth(value_model(v)),
{
    match v {
        Some(DynValue::Bool(b)) => Some(*b),
        _ => None,
    }
}

} // verus!
