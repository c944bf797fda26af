//! Collectors of a caller's own: how documents are filtered, summed up and
//! scored.
use vstd::prelude::*;
use crate::text::{copy_text, float_literal, is_float_literal, opt_text, same_text};

verus! {

/// How a field is held against a value.
#[derive(Clone, Copy, Debug, PartialEq, Eq, Structural)]
pub enum FilterOperator {
    Equals,
    GreaterThan,
    LessThan,
    Contains,
    Regex,
}

pub open spec fn operator_of(word: Seq<char>) -> Option<FilterOperator> {
    if word == "equals"@ {
        Some(FilterOperator::Equals)
    } else if word == "gt"@ {
        Some(FilterOperator::GreaterThan)
    } else if word == "lt"@ {
        Some(FilterOperator::LessThan)
    } else if word == "contains"@ {
        Some(FilterOperator::Contains)
    } else if word == "regex"@ {
        Some(FilterOperator::Regex)
    } else {
        None
    }
}

/// Reads the word for an operator.
pub fn parse_filter_operator(word: &str) -> (r: Option<FilterOperator>)
    ensures
        r == operator_of(word@),
{
    if same_text(word, "equals") {
        Some(FilterOperator::Equals)
    } else if same_text(word, "gt") {
        Some(FilterOperator::GreaterThan)
    } else if same_text(word, "lt") {
        Some(FilterOperator::LessThan)
    } else if same_text(word, "contains") {
        Some(FilterOperator::Contains)
    } else if same_text(word, "regex") {
        Some(FilterOperator::Regex)
    } else {
        None
    }
}

/// The value that a field is held against. `Number` holds the decimal
/// literal of the number.
#[derive(Debug, PartialEq)]
pub enum FilterValue {
    Text(String),
    Number(String),
    Boolean(bool),
}

pub enum FilterValueModel {
    Text(Seq<char>),
    Number(Seq<char>),
    Boolean(bool),
}

impl View for FilterValue {
    type V = FilterValueModel;

    open spec fn view(&self) -> FilterValueModel {
        match self {
            FilterValue::Text(s) => FilterValueModel::Text(s@),
            FilterValue::Number(s) => FilterValueModel::Number(s@),
            FilterValue::Boolean(b) => FilterValueModel::Boolean(*b),
        }
    }
}

/// A value by its text: a number where the text denotes one, else a truth
/// value where it is `true` or `false`, else the text.
pub open spec fn filter_value_of(text: Seq<char>) -> FilterValueModel {
    if is_float_literal(text) {
        FilterValueModel::Number(text)
    } else if text == "true"@ {
        FilterValueModel::Boolean(true)
    } else if text == "false"@ {
        FilterValueModel::Boolean(false)
    } else {
        FilterValueModel::Text(text)
    }
}

/// Reads the value of a filter.
pub fn parse_filter_value(text: &str) -> (r: FilterValue)
    ensures
        r@ == filter_value_of(text@),
{
    if float_literal(text) {
        FilterValue::Number(copy_text(text))
    } else if same_text(text, "true") {
        FilterValue::Boolean(true)
    } else if same_text(text, "false") {
        FilterValue::Boolean(false)
    } else {
        FilterValue::Text(copy_text(text))
    }
}

/// A condition on a field.
#[derive(Debug, PartialEq)]
pub struct FilterCriterion {
    pub field: String,
    pub operator: FilterOperator,
    pub value: FilterValue,
}

pub struct FilterCriterionModel {
    pub field: Seq<char>,
    pub operator: FilterOperator,
    pub value: FilterValueModel,
}

impl View for FilterCriterion {
    type V = FilterCriterionModel;

    open spec fn view(&self) -> FilterCriterionModel {
        FilterCriterionModel { field: self.field@, operator: self.operator, value: self.value@ }
    }
}

pub open spec fn criterion_models(cs: Seq<FilterCriterion>) -> Seq<FilterCriterionModel> {
    cs.map_values(|c: FilterCriterion| c@)
}

pub open spec fn spec_texts(specs: Seq<(String, String, String)>) -> Seq<
    (Seq<char>, Seq<char>, Seq<char>),
> {
    specs.map_values(|s: (String, String, String)| (s.0@, s.1@, s.2@))
}

/// The conditions that the descriptions give, each of a field, the word
/// for an operator, and a value; none where a word names no operator.
pub open spec fn criteria_of(specs: Seq<(Seq<char>, Seq<char>, Seq<char>)>) -> Option<
    Seq<FilterCriterionModel>,
>
    decreases specs.len(),
{
    if specs.len() == 0 {
        Some(Seq::empty())
    } else {
        match criteria_of(specs.drop_last()) {
            None => None,
            Some(cs) => match operator_of(specs.last().1) {
                None => None,
                Some(operator) => Some(
                    cs.push(
                        FilterCriterionModel {
                            field: specs.last().0,
                            operator,
                            value: filter_value_of(specs.last().2),
                        },
                    ),
                ),
            },
        }
    }
}

proof fn lemma_criteria_none(specs: Seq<(Seq<char>, Seq<char>, Seq<char>)>, n: int)
    requires
        0 <= n <= specs.len(),
        criteria_of(specs.take(n)) is None,
    ensures
        criteria_of(specs) is None,
    decreases specs.len(),
{
    if n < specs.len() {
        assert(specs.drop_last().take(n) =~= specs.take(n));
        lemma_criteria_none(specs.drop_last(), n);
    } else {
        assert(specs.take(n) =~= specs);
    }
}

/// Reads the conditions of a filtering collector.
pub fn custom_collector_create_filtering(filter_specs: &Vec<(String, String, String)>) -> (r:
    Option<Vec<FilterCriterion>>)
    ensures
        match r {
            Some(cs) => criteria_of(spec_texts(filter_specs@)) == Some(criterion_models(cs@)),
            None => criteria_of(spec_texts(filter_specs@)) is None,
        },
{
    let ghost specs = spec_texts(filter_specs@);
    let mut out: Vec<FilterCriterion> = Vec::new();
    let mut i: usize = 0;
    proof {
        assert(criterion_models(out@) =~= Seq::<FilterCriterionModel>::empty());
    }
    while i < filter_specs.len()
        invariant
            i <= filter_specs.len(),
            specs == spec_texts(filter_specs@),
            criteria_of(specs.take(i as int)) == Some(criterion_models(out@)),
        decreases filter_specs.len() - i,
    {
        let s = &filter_specs[i];
        proof {
            assert(specs.take(i + 1).drop_last() =~= specs.take(i as int));
            assert(specs.take(i + 1).last() == (s.0@, s.1@, s.2@));
        }
        match parse_filter_operator(s.1.as_str()) {
            Some(operator) => {
                let c = FilterCriterion {
                    field: s.0.clone(),
                    operator,
                    value: parse_filter_value(s.2.as_str()),
                };
                proof {
                    assert(criterion_models(out@.push(c)) =~= criterion_models(out@).push(c@));
                }
                out.push(c);
            },
            None => {
                proof {
                    lemma_criteria_none(specs, i + 1);
                }
                return None;
            },
        }
        i += 1;
    }
    proof {
        assert(specs.take(specs.len() as int) =~= specs);
    }
    Some(out)
}

/// What a collector sums up of a field.
#[derive(Debug, PartialEq)]
pub enum AggregationType {
    Count,
    Sum { field: String },
    Average { field: String },
    Min { field: String },
    Max { field: String },
}

pub enum AggregationTypeModel {
    Count,
    Sum { field: Seq<char> },
    Average { field: Seq<char> },
    Min { field: Seq<char> },
    Max { field: Seq<char> },
}

impl View for AggregationType {
    type V = AggregationTypeModel;

    open spec fn view(&self) -> AggregationTypeModel {
        match self {
            AggregationType::Count => AggregationTypeModel::Count,
            AggregationType::Sum { field } => AggregationTypeModel::Sum { field: field@ },
            AggregationType::Average { field } => AggregationTypeModel::Average { field: field@ },
            AggregationType::Min { field } => AggregationTypeModel::Min { field: field@ },
            AggregationType::Max { field } => AggregationTypeModel::Max { field: field@ },
        }
    }
}

/// What the word `kind` sums up of `field`.
pub open spec fn summary_of(kind: Seq<char>, field: Seq<char>) -> Option<AggregationTypeModel> {
    if kind == "count"@ {
        Some(AggregationTypeModel::Count)
    } else if kind == "sum"@ {
        Some(AggregationTypeModel::Sum { field })
    } else if kind == "average"@ {
        Some(AggregationTypeModel::Average { field })
    } else if kind == "min"@ {
        Some(AggregationTypeModel::Min { field })
    } else if kind == "max"@ {
        Some(AggregationTypeModel::Max { field })
    } else {
        None
    }
}

/// Reads what a collector sums up.
pub fn parse_summary(kind: &str, field: &str) -> (r: Option<AggregationType>)
    ensures
        match r {
            Some(t) => summary_of(kind@, field@) == Some(t@),
            None => summary_of(kind@, field@) is None,
        },
{
    if same_text(kind, "count") {
        Some(AggregationType::Count)
    } else if same_text(kind, "sum") {
        Some(AggregationType::Sum { field: copy_text(field) })
    } else if same_text(kind, "average") {
        Some(AggregationType::Average { field: copy_text(field) })
    } else if same_text(kind, "min") {
        Some(AggregationType::Min { field: copy_text(field) })
    } else if same_text(kind, "max") {
        Some(AggregationType::Max { field: copy_text(field) })
    } else {
        None
    }
}

pub open spec fn summary_models(xs: Seq<(String, AggregationType)>) -> Seq<
    (Seq<char>, AggregationTypeModel),
> {
    xs.map_values(|x: (String, AggregationType)| (x.0@, x.1@))
}

/// The summaries that the descriptions give, each of a name, a kind and a
/// field; none where a word names no kind.
pub open spec fn summaries_of(specs: Seq<(Seq<char>, Seq<char>, Seq<char>)>) -> Option<
    Seq<(Seq<char>, AggregationTypeModel)>,
>
    decreases specs.len(),
{
    if specs.len() == 0 {
        Some(Seq::empty())
    } else {
        match summaries_of(specs.drop_last()) {
            None => None,
            Some(xs) => match summary_of(specs.last().1, specs.last().2) {
                None => None,
                Some(t) => Some(xs.push((specs.last().0, t))),
            },
        }
    }
}

proof fn lemma_summaries_none(specs: Seq<(Seq<char>, Seq<char>, Seq<char>)>, n: int)
    requires
        0 <= n <= specs.len(),
        summaries_of(specs.take(n)) is None,
    ensures
        summaries_of(specs) is None,
    decreases specs.len(),
{
    if n < specs.len() {
        assert(specs.drop_last().take(n) =~= specs.take(n));
        lemma_summaries_none(specs.drop_last(), n);
    } else {
        assert(specs.take(n) =~= specs);
    }
}

/// Reads the summaries of an aggregation collector.
pub fn custom_collector_create_aggregation(aggregation_specs: &Vec<(String, String, String)>) -> (r:
    Option<Vec<(String, AggregationType)>>)
    ensures
        match r {
            Some(xs) => summaries_of(spec_texts(aggregation_specs@)) == Some(summary_models(xs@)),
            None => summaries_of(spec_texts(aggregation_specs@)) is None,
        },
{
    let ghost specs = spec_texts(aggregation_specs@);
    let mut out: Vec<(String, AggregationType)> = Vec::new();
    let mut i: usize = 0;
    proof {
        assert(summary_models(out@) =~= Seq::<(Seq<char>, AggregationTypeModel)>::empty());
    }
    while i < aggregation_specs.len()
        invariant
            i <= aggregation_specs.len(),
            specs == spec_texts(aggregation_specs@),
            summaries_of(specs.take(i as int)) == Some(summary_models(out@)),
        decreases aggregation_specs.len() - i,
    {
        let s = &aggregation_specs[i];
        proof {
            assert(specs.take(i + 1).drop_last() =~= specs.take(i as int));
            assert(specs.take(i + 1).last() == (s.0@, s.1@, s.2@));
        }
        match parse_summary(s.1.as_str(), s.2.as_str()) {
            Some(t) => {
                let name = s.0.clone();
                proof {
                    assert(summary_models(out@.push((name, t))) =~= summary_models(out@).push(
                        (name@, t@),
                    ));
                }
                out.push((name, t));
            },
            None => {
                proof {
                    lemma_summaries_none(specs, i + 1);
                }
                return None;
            },
        }
        i += 1;
    }
    proof {
        assert(specs.take(specs.len() as int) =~= specs);
    }
    Some(out)
}

/// How documents are scored. Each number holds its decimal literal.
#[derive(Debug, PartialEq)]
pub enum ScoringType {
    BM25 { k1: String, b: String },
    /// `normalize` holds the parameter of that name, where one is given.
    TFIDF { normalize: Option<String> },
    Custom { formula: String },
}

pub enum ScoringTypeModel {
    BM25 { k1: Seq<char>, b: Seq<char> },
    TFIDF { normalize: Option<Seq<char>> },
    Custom { formula: Seq<char> },
}

impl View for ScoringType {
    type V = ScoringTypeModel;

    open spec fn view(&self) -> ScoringTypeModel {
        match self {
            ScoringType::BM25 { k1, b } => ScoringTypeModel::BM25 { k1: k1@, b: b@ },
            ScoringType::TFIDF { normalize } => ScoringTypeModel::TFIDF {
                normalize: opt_text(*normalize),
            },
            ScoringType::Custom { formula } => ScoringTypeModel::Custom { formula: formula@ },
        }
    }
}

pub open spec fn parameter_models(ps: Seq<(String, String)>) -> Seq<(Seq<char>, Seq<char>)> {
    ps.map_values(|p: (String, String)| (p.0@, p.1@))
}

/// The value of the first parameter called `name`.
pub open spec fn parameter(ps: Seq<(Seq<char>, Seq<char>)>, name: Seq<char>) -> Option<Seq<char>>
    decreases ps.len(),
{
    if ps.len() == 0 {
        None
    } else {
        match parameter(ps.drop_last(), name) {
            Some(v) => Some(v),
            None => if ps.last().0 == name {
                Some(ps.last().1)
            } else {
                None
            },
        }
    }
}

pub open spec fn or_default(v: Option<Seq<char>>, default: Seq<char>) -> Seq<char> {
    match v {
        Some(x) => x,
        None => default,
    }
}

/// The formula of a scoring of the caller's own.
pub open spec fn custom_formula() -> Seq<char> {
    "score * boost"@
}

/// The scoring that a word names, with its parameters: `bm25` with `k1`,
/// 1.2 where it is not given, and `b`, 0.75 where it is not given; `tfidf`;
/// `custom`.
pub open spec fn scoring_of(word: Seq<char>, ps: Seq<(Seq<char>, Seq<char>)>) -> Option<
    ScoringTypeModel,
> {
    if word == "bm25"@ {
        Some(
            ScoringTypeModel::BM25 {
                k1: or_default(parameter(ps, "k1"@), "1.2"@),
                b: or_default(parameter(ps, "b"@), "0.75"@),
            },
        )
    } else if word == "tfidf"@ {
        Some(ScoringTypeModel::TFIDF { normalize: parameter(ps, "normalize"@) })
    } else if word == "custom"@ {
        Some(ScoringTypeModel::Custom { formula: custom_formula() })
    } else {
        None
    }
}

fn find_parameter(parameters: &Vec<(String, String)>, name: &str) -> (r: Option<String>)
    ensures
        opt_text(r) == parameter(parameter_models(parameters@), name@),
{
    let ghost ps = parameter_models(parameters@);
    let mut i: usize = 0;
    proof {
        assert(ps.take(0) =~= Seq::<(Seq<char>, Seq<char>)>::empty());
    }
    while i < parameters.len()
        invariant
            i <= parameters.len(),
            ps == parameter_models(parameters@),
            parameter(ps.take(i as int), name@) is None,
        decreases parameters.len() - i,
    {
        proof {
            assert(ps.take(i + 1).drop_last() =~= ps.take(i as int));
            assert(ps.take(i + 1).last() == (parameters@[i as int].0@, parameters@[i as int].1@));
        }
        if same_text(parameters[i].0.as_str(), name) {
            proof {
                lemma_parameter_found(ps, name@, i + 1);
            }
            return Some(parameters[i].1.clone());
        }
        i += 1;
    }
    proof {
        assert(ps.take(ps.len() as int) =~= ps);
    }
    None
}

/// A parameter that is found among the first `n` is the parameter of the
/// whole.
proof fn lemma_parameter_found(ps: Seq<(Seq<char>, Seq<char>)>, name: Seq<char>, n: int)
    requires
        0 <= n <= ps.len(),
        parameter(ps.take(n), name) is Some,
    ensures
        parameter(ps, name) == parameter(ps.take(n), name),
    decreases ps.len(),
{
    if n < ps.len() {
        assert(ps.drop_last().take(n) =~= ps.take(n));
        lemma_parameter_found(ps.drop_last(), name, n);
    } else {
        assert(ps.take(n) =~= ps);
    }
}

/// Reads how documents are scored.
pub fn custom_collector_create_scoring_function(scoring_type: &str, parameters: &Vec<(String, String)>) -> (r:
    Option<ScoringType>)
    ensures
        match r {
            Some(t) => scoring_of(scoring_type@, parameter_models(parameters@)) == Some(t@),
            None => scoring_of(scoring_type@, parameter_models(parameters@)) is None,
        },
{
    if same_text(scoring_type, "bm25") {
        let k1 = match find_parameter(parameters, "k1") {
            Some(v) => v,
            None => copy_text("1.2"),
        };
        let b = match find_parameter(parameters, "b") {
            Some(v) => v,
            None => copy_text("0.75"),
        };
        Some(ScoringType::BM25 { k1, b })
    } else if same_text(scoring_type, "tfidf") {
        Some(ScoringType::TFIDF { normalize: find_parameter(parameters, "normalize") })
    } else if same_text(scoring_type, "custom") {
        Some(ScoringType::Custom { formula: copy_text("score * boost") })
    } else {
        None
    }
}

/// What a collector found. A score holds its decimal literal.
#[derive(Debug, PartialEq)]
pub struct CollectionResult {
    pub result_type: String,
    pub document_scores: Vec<(u32, String)>,
    pub aggregations: Vec<(String, String)>,
    pub metadata: Vec<(String, String)>,
    pub total_hits: u64,
    pub collection_time_ms: u64,
}

/// A collector of the best documents.
#[derive(Debug, PartialEq)]
pub struct TopKCollector {
    pub name: String,
    pub k: usize,
    pub results: Vec<(u32, String)>,
}

/// A collector that sums up fields.
#[derive(Debug, PartialEq)]
pub struct AggregationCollector {
    pub name: String,
    pub aggregations: Vec<(String, AggregationType)>,
    pub results: Vec<(String, String)>,
    pub doc_count: u64,
}

/// A collector of the documents that pass conditions.
#[derive(Debug, PartialEq)]
pub struct FilteringCollector {
    pub name: String,
    pub filter_criteria: Vec<FilterCriterion>,
    pub collected_docs: Vec<u32>,
    pub metadata: Vec<(String, String)>,
}

fn copy_pairs(ps: &Vec<(String, String)>) -> (out: Vec<(String, String)>)
    ensures
        parameter_models(out@) == parameter_models(ps@),
{
    let mut out: Vec<(String, String)> = Vec::new();
    let mut i: usize = 0;
    while i < ps.len()
        invariant
            i <= ps.len(),
            out.len() == i,
            forall|k: int|
                0 <= k < i ==> (#[trigger] out@[k]).0@ == ps@[k].0@ && out@[k].1@ == ps@[k].1@,
        decreases ps.len() - i,
    {
        out.push((ps[i].0.clone(), ps[i].1.clone()));
        i += 1;
    }
    proof {
        assert(parameter_models(out@) =~= parameter_models(ps@));
    }
    out
}

pub open spec fn score_models(ss: Seq<(u32, String)>) -> Seq<(u32, Seq<char>)> {
    ss.map_values(|s: (u32, String)| (s.0, s.1@))
}

impl TopKCollector {
    /// What the collector found: its documents with their scores.
    pub fn get_results(&self) -> (r: CollectionResult)
        ensures
            r.result_type@ == "top_k"@,
            score_models(r.document_scores@) == score_models(self.results@),
            r.aggregations@.len() == 0,
            r.metadata@.len() == 0,
            r.total_hits == self.results@.len(),
            r.collection_time_ms == 0,
    {
        let mut scores: Vec<(u32, String)> = Vec::new();
        let mut i: usize = 0;
        while i < self.results.len()
            invariant
                i <= self.results.len(),
                scores.len() == i,
                forall|k: int|
                    0 <= k < i ==> (#[trigger] scores@[k]).0 == self.results@[k].0 && scores@[k].1@
                        == self.results@[k].1@,
            decreases self.results.len() - i,
        {
            scores.push((self.results[i].0, self.results[i].1.clone()));
            i += 1;
        }
        proof {
            assert(score_models(scores@) =~= score_models(self.results@));
        }
        CollectionResult {
            result_type: copy_text("top_k"),
            document_scores: scores,
            aggregations: Vec::new(),
            metadata: Vec::new(),
            total_hits: self.results.len() as u64,
            collection_time_ms: 0,
        }
    }
}

impl AggregationCollector {
    /// What the collector found: its sums, and how many documents it saw.
    pub fn get_results(&self) -> (r: CollectionResult)
        ensures
            r.result_type@ == "aggregation"@,
            r.document_scores@.len() == 0,
            parameter_models(r.aggregations@) == parameter_models(self.results@),
            r.metadata@.len() == 0,
            r.total_hits == self.doc_count,
            r.collection_time_ms == 0,
    {
        CollectionResult {
            result_type: copy_text("aggregation"),
            document_scores: Vec::new(),
            aggregations: copy_pairs(&self.results),
            metadata: Vec::new(),
            total_hits: self.doc_count,
            collection_time_ms: 0,
        }
    }
}

impl FilteringCollector {
    /// What the collector found: how many documents passed.
    pub fn get_results(&self) -> (r: CollectionResult)
        ensures
            r.result_type@ == "filtering"@,
            r.document_scores@.len() == 0,
            r.aggregations@.len() == 0,
            parameter_models(r.metadata@) == parameter_models(self.metadata@),
            r.total_hits == self.collected_docs@.len(),
            r.collection_time_ms == 0,
    {
        CollectionResult {
            result_type: copy_text("filtering"),
            document_scores: Vec::new(),
            aggregations: Vec::new(),
            metadata: copy_pairs(&self.metadata),
            total_hits: self.collected_docs.len() as u64,
            collection_time_ms: 0,
        }
    }
}

} // verus!
