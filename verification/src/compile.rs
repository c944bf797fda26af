//! The query compiler: from loosely typed descriptions of a query to query
//! expressions, by the schema's view of each field.
use vstd::prelude::*;
use crate::coerce::{coerce, coerce_spec};
use crate::engine::{
    facet_display, facet_encode, facet_encoding, facet_path_of, regex_compiles, regex_valid,
    rooted,
};
use crate::json::{json_of_text, parse_json};
use crate::query::{
    basic_term, clause_models, lemma_clause_models, make_must_all, make_text_terms, must_all,
    seed_models, term_models, text_terms, MoreLikeThisModel, MoreLikeThisParams, Occur, Query,
    QueryModel, Term,
    TermModel,
};
use crate::schema::{lookup, FieldEntry, FieldModel, IndexRecord, Schema};
use crate::text::{
    bool_of_text, chars_of, copy_text, opt_text, decimal_i64, decimal_u64, float_literal,
    is_float_literal, lowercase_all, lowercase_each, lowercase_of, nanos_of_seconds, parse_bool,
    parse_i64, parse_u64, seconds_to_nanos, split_whitespace, string_of, string_of_range, texts,
    to_lowercase, trim_chars, trimmed, words,
};
use crate::value::{
    dyn_entry_models, dyn_models, lemma_dyn_entry_models, lemma_dyn_models, lemma_typed_models,
    typed_models, DynModel, DynValue, FieldType, TypedModel, TypedValue,
};

verus! {

/// What is wrong with a query description.
#[derive(Debug, PartialEq)]
pub enum Fault {
    /// The text does not denote a value of the field's type.
    Value { text: String, expected: FieldType },
    /// The value does not fit the field's type.
    OutOfRange { expected: FieldType },
    /// The pattern is no regular expression, nor a plain prefix.
    Pattern { pattern: String },
    /// The facet path does not start at the root.
    FacetPath { path: String },
    /// Fewer terms than the query needs.
    TooFewTerms { given: usize, needed: usize },
    /// The field's type has no query of this kind.
    UnsupportedType { field_type: FieldType },
    /// The text is no JSON.
    Json,
}

pub enum FaultModel {
    Value { text: Seq<char>, expected: FieldType },
    OutOfRange { expected: FieldType },
    Pattern { pattern: Seq<char> },
    FacetPath { path: Seq<char> },
    TooFewTerms { given: usize, needed: usize },
    UnsupportedType { field_type: FieldType },
    Json,
}

impl View for Fault {
    type V = FaultModel;

    open spec fn view(&self) -> FaultModel {
        match self {
            Fault::Value { text, expected } => FaultModel::Value {
                text: text@,
                expected: *expected,
            },
            Fault::OutOfRange { expected } => FaultModel::OutOfRange { expected: *expected },
            Fault::Pattern { pattern } => FaultModel::Pattern { pattern: pattern@ },
            Fault::FacetPath { path } => FaultModel::FacetPath { path: path@ },
            Fault::TooFewTerms { given, needed } => FaultModel::TooFewTerms {
                given: *given,
                needed: *needed,
            },
            Fault::UnsupportedType { field_type } => FaultModel::UnsupportedType {
                field_type: *field_type,
            },
            Fault::Json => FaultModel::Json,
        }
    }
}

/// Why a query could not be compiled.
#[derive(Debug, PartialEq)]
pub enum QueryError {
    /// The schema has no field of this name.
    FieldNotFound { field: String },
    /// The description is malformed; `field` is the field it speaks of.
    InvalidDescriptor { field: String, reason: Fault },
    /// The query text is empty.
    EmptyQuery,
    /// No default field was given.
    NoDefaultFields,
    /// The seed document holds no value for any field of the schema.
    NoSeedFields,
}

pub enum QueryErrorModel {
    FieldNotFound { field: Seq<char> },
    InvalidDescriptor { field: Seq<char>, reason: FaultModel },
    EmptyQuery,
    NoDefaultFields,
    NoSeedFields,
}

impl View for QueryError {
    type V = QueryErrorModel;

    open spec fn view(&self) -> QueryErrorModel {
        match self {
            QueryError::FieldNotFound { field } => QueryErrorModel::FieldNotFound {
                field: field@,
            },
            QueryError::InvalidDescriptor { field, reason } => QueryErrorModel::InvalidDescriptor {
                field: field@,
                reason: reason@,
            },
            QueryError::EmptyQuery => QueryErrorModel::EmptyQuery,
            QueryError::NoDefaultFields => QueryErrorModel::NoDefaultFields,
            QueryError::NoSeedFields => QueryErrorModel::NoSeedFields,
        }
    }
}

pub type Compiled = Result<Query, QueryError>;

pub type CompiledModel = Result<QueryModel, QueryErrorModel>;

pub open spec fn compiled_model(r: Compiled) -> CompiledModel {
    match r {
        Ok(q) => Ok(q@),
        Err(e) => Err(e@),
    }
}

pub open spec fn bad_value(name: Seq<char>, text: Seq<char>, expected: FieldType) -> CompiledModel {
    Err(
        QueryErrorModel::InvalidDescriptor {
            field: name,
            reason: FaultModel::Value { text, expected },
        },
    )
}

pub open spec fn not_found(name: Seq<char>) -> CompiledModel {
    Err(QueryErrorModel::FieldNotFound { field: name })
}

/// The term query for a tokenized text field, from the lowercase words of
/// the text and the lowercase text: a conjunction of the words where there
/// are several, the one word as a term where there is one, and the text as
/// a term where it holds no word.
pub open spec fn words_query(id: u32, low_words: Seq<Seq<char>>, low_text: Seq<char>) -> QueryModel {
    if low_words.len() > 1 {
        must_all(text_terms(id, low_words))
    } else if low_words.len() == 1 {
        basic_term(id, TypedModel::Str(low_words[0]))
    } else {
        basic_term(id, TypedModel::Str(low_text))
    }
}

/// The term query for a tokenized text field: over the words of the text,
/// in lowercase, as the field's tokenizer cuts them.
pub open spec fn tokenized_term_query(id: u32, text: Seq<char>) -> QueryModel {
    words_query(id, lowercase_all(words(text)), lowercase_of(text))
}

/// The term query on the field `f`, whose identifier is `id`, for a value
/// given as text.
pub open spec fn field_term_query(f: FieldModel, id: u32, text: Seq<char>) -> CompiledModel {
    match f.field_type {
        FieldType::Text => if f.tokenized() {
            Ok(tokenized_term_query(id, text))
        } else {
            Ok(basic_term(id, TypedModel::Str(text)))
        },
        FieldType::U64 => match decimal_u64(text) {
            Some(u) => Ok(basic_term(id, TypedModel::U64(u))),
            None => bad_value(f.name, text, FieldType::U64),
        },
        FieldType::I64 => match decimal_i64(text) {
            Some(i) => Ok(basic_term(id, TypedModel::I64(i))),
            None => bad_value(f.name, text, FieldType::I64),
        },
        FieldType::F64 => if is_float_literal(text) {
            Ok(basic_term(id, TypedModel::F64(text)))
        } else {
            bad_value(f.name, text, FieldType::F64)
        },
        FieldType::Bool => match bool_of_text(text) {
            Some(b) => Ok(basic_term(id, TypedModel::Bool(b))),
            None => bad_value(f.name, text, FieldType::Bool),
        },
        FieldType::Date => match decimal_i64(text) {
            Some(secs) => match nanos_of_seconds(secs) {
                Some(n) => Ok(basic_term(id, TypedModel::Date(n))),
                None => Err(
                    QueryErrorModel::InvalidDescriptor {
                        field: f.name,
                        reason: FaultModel::OutOfRange { expected: FieldType::Date },
                    },
                ),
            },
            None => bad_value(f.name, text, FieldType::Date),
        },
        _ => Err(
            QueryErrorModel::InvalidDescriptor {
                field: f.name,
                reason: FaultModel::UnsupportedType { field_type: f.field_type },
            },
        ),
    }
}

/// The term query on the field called `name`.
pub open spec fn term_query(fields: Seq<FieldModel>, name: Seq<char>, text: Seq<char>) -> CompiledModel {
    match lookup(fields, name) {
        None => not_found(name),
        Some(i) => field_term_query(fields[i], i as u32, text),
    }
}

fn basic(id: u32, value: TypedValue) -> (r: Compiled)
    ensures
        compiled_model(r) == Ok::<QueryModel, QueryErrorModel>(basic_term(id, value@)),
{
    Ok(Query::Term { term: Term { field: id, value }, record: IndexRecord::Basic })
}

fn value_fault(name: &str, text: &str, expected: FieldType) -> (r: Compiled)
    ensures
        compiled_model(r) == bad_value(name@, text@, expected),
{
    Err(
        QueryError::InvalidDescriptor {
            field: copy_text(name),
            reason: Fault::Value { text: copy_text(text), expected },
        },
    )
}

fn missing(name: &str) -> (r: Compiled)
    ensures
        compiled_model(r) == not_found(name@),
{
    Err(QueryError::FieldNotFound { field: copy_text(name) })
}

/// The term query for a tokenized text field, from the lowercase words of
/// the text and the lowercase form of the whole text.
pub fn term_query_for_words(id: u32, low_words: Vec<String>, low_text: String) -> (q: Query)
    ensures
        q@ == words_query(id, texts(low_words@), low_text@),
{
    let mut low_words = low_words;
    if low_words.len() > 1 {
        make_must_all(make_text_terms(id, low_words))
    } else if low_words.len() == 1 {
        let ghost low = texts(low_words@);
        proof {
            assert(low[0] == low_words@[0]@);
        }
        let word = low_words.pop().unwrap();
        Query::Term {
            term: Term { field: id, value: TypedValue::Str(word) },
            record: IndexRecord::Basic,
        }
    } else {
        Query::Term {
            term: Term { field: id, value: TypedValue::Str(low_text) },
            record: IndexRecord::Basic,
        }
    }
}

/// Compiles a term query on one field.
pub fn compile_field_term(entry: &FieldEntry, id: u32, term_value: &str) -> (r: Compiled)
    ensures
        compiled_model(r) == field_term_query(entry@, id, term_value@),
{
    let name = entry.name.as_str();
    match entry.field_type {
        FieldType::Text => {
            if entry.is_tokenized() {
                let ws = split_whitespace(term_value);
                let low = lowercase_each(&ws);
                proof {
                    assert(texts(low@).len() == texts(ws@).len());
                }
                Ok(term_query_for_words(id, low, to_lowercase(term_value)))
            } else {
                basic(id, TypedValue::Str(copy_text(term_value)))
            }
        },
        FieldType::U64 => match parse_u64(term_value) {
            Some(u) => basic(id, TypedValue::U64(u)),
            None => value_fault(name, term_value, FieldType::U64),
        },
        FieldType::I64 => match parse_i64(term_value) {
            Some(i) => basic(id, TypedValue::I64(i)),
            None => value_fault(name, term_value, FieldType::I64),
        },
        FieldType::F64 => {
            if float_literal(term_value) {
                basic(id, TypedValue::F64(copy_text(term_value)))
            } else {
                value_fault(name, term_value, FieldType::F64)
            }
        },
        FieldType::Bool => match parse_bool(term_value) {
            Some(b) => basic(id, TypedValue::Bool(b)),
            None => value_fault(name, term_value, FieldType::Bool),
        },
        FieldType::Date => match parse_i64(term_value) {
            Some(secs) => match seconds_to_nanos(secs) {
                Some(n) => basic(id, TypedValue::Date(n)),
                None => Err(
                    QueryError::InvalidDescriptor {
                        field: copy_text(name),
                        reason: Fault::OutOfRange { expected: FieldType::Date },
                    },
                ),
            },
            None => value_fault(name, term_value, FieldType::Date),
        },
        _ => Err(
            QueryError::InvalidDescriptor {
                field: copy_text(name),
                reason: Fault::UnsupportedType { field_type: entry.field_type },
            },
        ),
    }
}

/// Compiles the query that matches `term_value` in the field `field_name`,
/// read by the field's type.
pub fn query_term(schema: &Schema, field_name: &str, term_value: &str) -> (r: Compiled)
    ensures
        compiled_model(r) == term_query(schema@, field_name@, term_value@),
{
    match schema.get_field(field_name) {
        None => missing(field_name),
        Some(id) => compile_field_term(schema.get_field_entry(id), id, term_value),
    }
}

pub open spec fn too_few(name: Seq<char>, given: usize, needed: usize) -> CompiledModel {
    Err(
        QueryErrorModel::InvalidDescriptor {
            field: name,
            reason: FaultModel::TooFewTerms { given, needed },
        },
    )
}

/// The phrase query on the field called `name`: the given terms, as they
/// are, in order. A phrase needs two terms.
pub open spec fn phrase_query(fields: Seq<FieldModel>, name: Seq<char>, terms: Seq<Seq<char>>) -> CompiledModel {
    match lookup(fields, name) {
        None => not_found(name),
        Some(i) => if terms.len() < 2 {
            too_few(name, terms.len() as usize, 2)
        } else {
            Ok(QueryModel::Phrase { terms: text_terms(i as u32, terms) })
        },
    }
}

/// Compiles a phrase query from its terms.
pub fn query_phrase(schema: &Schema, field_name: &str, phrase_terms: Vec<String>) -> (r: Compiled)
    ensures
        compiled_model(r) == phrase_query(schema@, field_name@, texts(phrase_terms@)),
{
    match schema.get_field(field_name) {
        None => missing(field_name),
        Some(id) => {
            if phrase_terms.len() < 2 {
                Err(
                    QueryError::InvalidDescriptor {
                        field: copy_text(field_name),
                        reason: Fault::TooFewTerms { given: phrase_terms.len(), needed: 2 },
                    },
                )
            } else {
                Ok(Query::Phrase { terms: make_text_terms(id, phrase_terms) })
            }
        },
    }
}

/// The phrase-prefix query on the field called `name`: the last term is
/// read as a prefix with at most `max_expansions` completions. It needs a
/// term.
pub open spec fn phrase_prefix_query(
    fields: Seq<FieldModel>,
    name: Seq<char>,
    terms: Seq<Seq<char>>,
    max_expansions: u32,
) -> CompiledModel {
    match lookup(fields, name) {
        None => not_found(name),
        Some(i) => if terms.len() < 1 {
            too_few(name, 0, 1)
        } else {
            Ok(QueryModel::PhrasePrefix { terms: text_terms(i as u32, terms), max_expansions })
        },
    }
}

/// Compiles a phrase-prefix query from its terms.
pub fn query_phrase_prefix(
    schema: &Schema,
    field_name: &str,
    phrase_terms: Vec<String>,
    max_expansions: u32,
) -> (r: Compiled)
    ensures
        compiled_model(r) == phrase_prefix_query(
            schema@,
            field_name@,
            texts(phrase_terms@),
            max_expansions,
        ),
{
    match schema.get_field(field_name) {
        None => missing(field_name),
        Some(id) => {
            if phrase_terms.len() < 1 {
                Err(
                    QueryError::InvalidDescriptor {
                        field: copy_text(field_name),
                        reason: Fault::TooFewTerms { given: 0, needed: 1 },
                    },
                )
            } else {
                Ok(
                    Query::PhrasePrefix {
                        terms: make_text_terms(id, phrase_terms),
                        max_expansions,
                    },
                )
            }
        },
    }
}

/// The range query on the field called `name`. Each bound is included when
/// given; a side without a bound is open, and both may be.
pub open spec fn range_query(
    fields: Seq<FieldModel>,
    name: Seq<char>,
    lower: Option<TypedModel>,
    upper: Option<TypedModel>,
) -> CompiledModel {
    match lookup(fields, name) {
        None => not_found(name),
        Some(i) => Ok(QueryModel::Range { field: i as u32, lower, upper }),
    }
}

pub open spec fn u64_bound(b: Option<u64>) -> Option<TypedModel> {
    match b {
        Some(u) => Some(TypedModel::U64(u)),
        None => None,
    }
}

pub open spec fn i64_bound(b: Option<i64>) -> Option<TypedModel> {
    match b {
        Some(i) => Some(TypedModel::I64(i)),
        None => None,
    }
}

pub open spec fn f64_bound(b: Option<Seq<char>>) -> Option<TypedModel> {
    match b {
        Some(t) => Some(TypedModel::F64(t)),
        None => None,
    }
}

pub fn query_range_u64(schema: &Schema, field_name: &str, start: Option<u64>, end: Option<u64>) -> (r:
    Compiled)
    ensures
        compiled_model(r) == range_query(schema@, field_name@, u64_bound(start), u64_bound(end)),
{
    match schema.get_field(field_name) {
        None => missing(field_name),
        Some(field) => {
            let lower = match start {
                Some(u) => Some(TypedValue::U64(u)),
                None => None,
            };
            let upper = match end {
                Some(u) => Some(TypedValue::U64(u)),
                None => None,
            };
            Ok(Query::Range { field, lower, upper })
        },
    }
}

pub fn query_range_i64(schema: &Schema, field_name: &str, start: Option<i64>, end: Option<i64>) -> (r:
    Compiled)
    ensures
        compiled_model(r) == range_query(schema@, field_name@, i64_bound(start), i64_bound(end)),
{
    match schema.get_field(field_name) {
        None => missing(field_name),
        Some(field) => {
            let lower = match start {
                Some(i) => Some(TypedValue::I64(i)),
                None => None,
            };
            let upper = match end {
                Some(i) => Some(TypedValue::I64(i)),
                None => None,
            };
            Ok(Query::Range { field, lower, upper })
        },
    }
}

pub open spec fn literal_or_absent(b: Option<Seq<char>>) -> bool {
    match b {
        Some(t) => is_float_literal(t),
        None => true,
    }
}

/// The range query over double-precision numbers, each bound given by its
/// decimal literal. A bound that is no literal is refused, the lower first.
pub open spec fn float_range_query(
    fields: Seq<FieldModel>,
    name: Seq<char>,
    start: Option<Seq<char>>,
    end: Option<Seq<char>>,
) -> CompiledModel {
    match lookup(fields, name) {
        None => not_found(name),
        Some(i) => if !literal_or_absent(start) {
            bad_value(name, start->0, FieldType::F64)
        } else if !literal_or_absent(end) {
            bad_value(name, end->0, FieldType::F64)
        } else {
            Ok(QueryModel::Range { field: i as u32, lower: f64_bound(start), upper: f64_bound(end) })
        },
    }
}

fn checked_literal(b: &Option<String>) -> (ok: bool)
    ensures
        ok == literal_or_absent(opt_text(*b)),
{
    match b {
        Some(t) => float_literal(t.as_str()),
        None => true,
    }
}

pub fn query_range_f64(
    schema: &Schema,
    field_name: &str,
    start: Option<String>,
    end: Option<String>,
) -> (r: Compiled)
    ensures
        compiled_model(r) == float_range_query(schema@, field_name@, opt_text(start), opt_text(end)),
{
    match schema.get_field(field_name) {
        None => missing(field_name),
        Some(field) => {
            if !checked_literal(&start) {
                value_fault(field_name, start.unwrap().as_str(), FieldType::F64)
            } else if !checked_literal(&end) {
                value_fault(field_name, end.unwrap().as_str(), FieldType::F64)
            } else {
                let lower = match start {
                    Some(t) => Some(TypedValue::F64(t)),
                    None => None,
                };
                let upper = match end {
                    Some(t) => Some(TypedValue::F64(t)),
                    None => None,
                };
                Ok(Query::Range { field, lower, upper })
            }
        },
    }
}

pub open spec fn query_models(qs: Seq<Query>) -> Seq<QueryModel> {
    Seq::new(qs.len(), |i: int| qs[i]@)
}

/// Each query as a clause of the same role.
pub open spec fn with_role(role: Occur, qs: Seq<QueryModel>) -> Seq<(Occur, QueryModel)> {
    qs.map_values(|q: QueryModel| (role, q))
}

/// The boolean query of the given clauses: those that must match, then
/// those that should, then those that must not.
pub open spec fn boolean_query(
    must: Seq<QueryModel>,
    should: Seq<QueryModel>,
    must_not: Seq<QueryModel>,
) -> QueryModel {
    QueryModel::Boolean {
        clauses: with_role(Occur::Must, must) + with_role(Occur::Should, should) + with_role(
            Occur::MustNot,
            must_not,
        ),
    }
}

fn push_clauses(clauses: &mut Vec<(Occur, Query)>, role: Occur, queries: Vec<Query>)
    ensures
        clause_models(final(clauses)@) == clause_models(old(clauses)@) + with_role(
            role,
            query_models(queries@),
        ),
{
    let ghost before = clause_models(clauses@);
    let ghost added = with_role(role, query_models(queries@));
    proof {
        lemma_clause_models(clauses@);
    }
    for q in it: queries
        invariant
            it.seq() == queries@,
            before == clause_models(old(clauses)@),
            added == with_role(role, query_models(queries@)),
            clauses.len() == before.len() + it.index(),
            forall|k: int| 0 <= k < before.len() ==> (#[trigger] clauses@[k].0, clauses@[k].1@) == before[k],
            forall|k: int|
                before.len() <= k < clauses.len() ==> (#[trigger] clauses@[k].0, clauses@[k].1@)
                    == added[k - before.len()],
    {
        clauses.push((role, q));
    }
    proof {
        lemma_clause_models(clauses@);
        let after = clause_models(clauses@);
        assert(after.len() == before.len() + added.len());
        assert forall|k: int| 0 <= k < after.len() implies after[k] == (before + added)[k] by {
            assert(after[k] == (clauses@[k].0, clauses@[k].1@));
        }
        assert(after =~= before + added);
    }
}

/// Combines queries into a boolean query.
pub fn query_boolean(must_queries: Vec<Query>, should_queries: Vec<Query>, must_not_queries: Vec<Query>) -> (q:
    Query)
    ensures
        q@ == boolean_query(
            query_models(must_queries@),
            query_models(should_queries@),
            query_models(must_not_queries@),
        ),
{
    let mut clauses: Vec<(Occur, Query)> = Vec::new();
    push_clauses(&mut clauses, Occur::Must, must_queries);
    push_clauses(&mut clauses, Occur::Should, should_queries);
    push_clauses(&mut clauses, Occur::MustNot, must_not_queries);
    proof {
        assert(clause_models(Seq::<(Occur, Query)>::empty()) =~= Seq::<(Occur, QueryModel)>::empty());
        assert(clause_models(clauses@) =~= boolean_query(
            query_models(must_queries@),
            query_models(should_queries@),
            query_models(must_not_queries@),
        )->clauses);
    }
    Query::Boolean { clauses }
}

/// The fuzzy query on the field called `name`: the term as it is, with the
/// edit distance and the prefix flag handed on unchanged.
pub open spec fn fuzzy_query(
    fields: Seq<FieldModel>,
    name: Seq<char>,
    text: Seq<char>,
    distance: u8,
    prefix: bool,
) -> CompiledModel {
    match lookup(fields, name) {
        None => not_found(name),
        Some(i) => Ok(
            QueryModel::Fuzzy {
                term: TermModel { field: i as u32, value: TypedModel::Str(text) },
                distance,
                prefix,
            },
        ),
    }
}

pub fn query_fuzzy(schema: &Schema, field_name: &str, term_value: &str, distance: u8, prefix: bool) -> (r:
    Compiled)
    ensures
        compiled_model(r) == fuzzy_query(schema@, field_name@, term_value@, distance, prefix),
{
    match schema.get_field(field_name) {
        None => missing(field_name),
        Some(field) => Ok(
            Query::Fuzzy {
                term: Term { field, value: TypedValue::Str(copy_text(term_value)) },
                distance,
                prefix,
            },
        ),
    }
}

pub open spec fn bad_pattern(name: Seq<char>, pattern: Seq<char>) -> CompiledModel {
    Err(
        QueryErrorModel::InvalidDescriptor { field: name, reason: FaultModel::Pattern { pattern } },
    )
}

/// The regular-expression query on the field called `name`, given whether
/// the engine accepts the pattern.
pub open spec fn regex_query(
    fields: Seq<FieldModel>,
    name: Seq<char>,
    pattern: Seq<char>,
    valid: bool,
) -> CompiledModel {
    match lookup(fields, name) {
        None => not_found(name),
        Some(i) => if valid {
            Ok(QueryModel::Regex { field: i as u32, pattern })
        } else {
            bad_pattern(name, pattern)
        },
    }
}

/// Builds the regular-expression query once the engine has judged the
/// pattern.
pub fn regex_query_checked(schema: &Schema, field_name: &str, pattern: &str, valid: bool) -> (r:
    Compiled)
    ensures
        compiled_model(r) == regex_query(schema@, field_name@, pattern@, valid),
{
    match schema.get_field(field_name) {
        None => missing(field_name),
        Some(field) => {
            if valid {
                Ok(Query::Regex { field, pattern: copy_text(pattern) })
            } else {
                Err(
                    QueryError::InvalidDescriptor {
                        field: copy_text(field_name),
                        reason: Fault::Pattern { pattern: copy_text(pattern) },
                    },
                )
            }
        },
    }
}

/// Compiles a regular-expression query; the engine judges the pattern.
pub fn query_regex(schema: &Schema, field_name: &str, pattern: &str) -> (r: Compiled)
    ensures
        compiled_model(r) == regex_query(schema@, field_name@, pattern@, regex_valid(pattern@)),
{
    let valid = regex_compiles(pattern);
    regex_query_checked(schema, field_name, pattern, valid)
}

/// The characters with a meaning of their own in a regular expression.
pub open spec fn is_regex_meta(c: char) -> bool {
    c == '\\' || c == '.' || c == '+' || c == '*' || c == '?' || c == '(' || c == ')' || c == '|'
        || c == '[' || c == ']' || c == '{' || c == '}' || c == '^' || c == '$' || c == '#' || c
        == '&' || c == '-' || c == '~'
}

/// What one character of a wildcard pattern becomes in the regular
/// expression: `*` any text, `?` any one character, anything else itself,
/// escaped where it would have a meaning.
pub open spec fn wildcard_piece(c: char) -> Seq<char> {
    if c == '*' {
        seq!['.', '*']
    } else if c == '?' {
        seq!['.']
    } else if is_regex_meta(c) {
        seq!['\\', c]
    } else {
        seq![c]
    }
}

/// The regular expression of a wildcard pattern.
pub open spec fn wildcard_regex(pattern: Seq<char>) -> Seq<char>
    decreases pattern.len(),
{
    if pattern.len() == 0 {
        Seq::empty()
    } else {
        wildcard_regex(pattern.drop_last()) + wildcard_piece(pattern.last())
    }
}

/// A literal followed by one `*`, with no other wildcard.
pub open spec fn prefix_pattern(pattern: Seq<char>) -> bool {
    &&& pattern.len() > 0
    &&& pattern.last() == '*'
    &&& forall|i: int| 0 <= i < pattern.len() - 1 ==> pattern[i] != '*' && pattern[i] != '?'
}

/// The query for every text of the field `id` that begins with `literal`:
/// a phrase prefix of that one term, with the largest bound on the texts
/// that the term may stand for.
pub open spec fn prefix_match(id: u32, literal: Seq<char>) -> QueryModel {
    QueryModel::PhrasePrefix {
        terms: seq![TermModel { field: id, value: TypedModel::Str(literal) }],
        max_expansions: u32::MAX,
    }
}

/// The wildcard query on the field `id`, given whether the engine accepts
/// the regular expression of the pattern. Where it does not, a plain prefix
/// pattern is still matched, by a prefix match on its literal.
pub open spec fn field_wildcard_query(name: Seq<char>, id: u32, pattern: Seq<char>, valid: bool) -> CompiledModel {
    if valid {
        Ok(QueryModel::Regex { field: id, pattern: wildcard_regex(pattern) })
    } else if prefix_pattern(pattern) {
        Ok(prefix_match(id, pattern.drop_last()))
    } else {
        bad_pattern(name, pattern)
    }
}

pub open spec fn wildcard_query(
    fields: Seq<FieldModel>,
    name: Seq<char>,
    pattern: Seq<char>,
    valid: bool,
) -> CompiledModel {
    match lookup(fields, name) {
        None => not_found(name),
        Some(i) => field_wildcard_query(name, i as u32, pattern, valid),
    }
}

fn is_meta(c: char) -> (r: bool)
    ensures
        r == is_regex_meta(c),
{
    c == '\\' || c == '.' || c == '+' || c == '*' || c == '?' || c == '(' || c == ')' || c == '|'
        || c == '[' || c == ']' || c == '{' || c == '}' || c == '^' || c == '$' || c == '#' || c
        == '&' || c == '-' || c == '~'
}

/// Turns a wildcard pattern into a regular expression.
pub fn wildcard_to_regex(pattern: &str) -> (regex: String)
    ensures
        regex@ == wildcard_regex(pattern@),
{
    let v = chars_of(pattern);
    let mut out: Vec<char> = Vec::new();
    let mut i: usize = 0;
    while i < v.len()
        invariant
            i <= v.len(),
            out@ == wildcard_regex(v@.take(i as int)),
        decreases v.len() - i,
    {
        let c = v[i];
        proof {
            assert(v@.take(i + 1).drop_last() =~= v@.take(i as int));
            assert(v@.take(i + 1).last() == c);
        }
        if c == '*' {
            out.push('.');
            out.push('*');
        } else if c == '?' {
            out.push('.');
        } else if is_meta(c) {
            out.push('\\');
            out.push(c);
        } else {
            out.push(c);
        }
        proof {
            assert(out@ =~= wildcard_regex(v@.take(i as int)) + wildcard_piece(c));
        }
        i += 1;
    }
    proof {
        assert(v@.take(v@.len() as int) =~= v@);
    }
    string_of(&out)
}

fn is_prefix_pattern(v: &Vec<char>) -> (r: bool)
    ensures
        r == prefix_pattern(v@),
{
    if v.len() == 0 || v[v.len() - 1] != '*' {
        return false;
    }
    let mut i: usize = 0;
    while i < v.len() - 1
        invariant
            v.len() > 0,
            i <= v.len() - 1,
            forall|k: int| 0 <= k < i ==> v@[k] != '*' && v@[k] != '?',
        decreases v.len() - i,
    {
        if v[i] == '*' || v[i] == '?' {
            return false;
        }
        i += 1;
    }
    true
}

fn make_prefix_match(id: u32, literal: String) -> (q: Query)
    ensures
        q@ == prefix_match(id, literal@),
{
    let mut terms: Vec<Term> = Vec::new();
    terms.push(Term { field: id, value: TypedValue::Str(literal) });
    proof {
        assert(term_models(terms@) =~= seq![
            TermModel { field: id, value: TypedModel::Str(literal@) },
        ]);
    }
    Query::PhrasePrefix { terms, max_expansions: u32::MAX }
}

/// Builds the wildcard query once the engine has judged the regular
/// expression of the pattern.
pub fn wildcard_query_checked(schema: &Schema, field_name: &str, pattern: &str, valid: bool) -> (r:
    Compiled)
    ensures
        compiled_model(r) == wildcard_query(schema@, field_name@, pattern@, valid),
{
    match schema.get_field(field_name) {
        None => missing(field_name),
        Some(field) => {
            let v = chars_of(pattern);
            if valid {
                Ok(Query::Regex { field, pattern: wildcard_to_regex(pattern) })
            } else if is_prefix_pattern(&v) {
                let literal = string_of_range(&v, 0, v.len() - 1);
                proof {
                    assert(v@.subrange(0, v@.len() - 1) =~= pattern@.drop_last());
                }
                Ok(make_prefix_match(field, literal))
            } else {
                Err(
                    QueryError::InvalidDescriptor {
                        field: copy_text(field_name),
                        reason: Fault::Pattern { pattern: copy_text(pattern) },
                    },
                )
            }
        },
    }
}

/// Compiles a wildcard query: `*` stands for any text and `?` for any one
/// character.
pub fn query_wildcard(schema: &Schema, field_name: &str, pattern: &str) -> (r: Compiled)
    ensures
        compiled_model(r) == wildcard_query(
            schema@,
            field_name@,
            pattern@,
            regex_valid(wildcard_regex(pattern@)),
        ),
{
    let regex = wildcard_to_regex(pattern);
    let valid = regex_compiles(regex.as_str());
    wildcard_query_checked(schema, field_name, pattern, valid)
}

/// The query for the documents that hold a value in the field called
/// `name`.
pub open spec fn exists_query(fields: Seq<FieldModel>, name: Seq<char>) -> CompiledModel {
    match lookup(fields, name) {
        None => not_found(name),
        Some(i) => Ok(QueryModel::Exists { field_name: name }),
    }
}

pub fn query_exists(schema: &Schema, field_name: &str) -> (r: Compiled)
    ensures
        compiled_model(r) == exists_query(schema@, field_name@),
{
    match schema.get_field(field_name) {
        None => missing(field_name),
        Some(_) => Ok(Query::Exists { field_name: copy_text(field_name) }),
    }
}

/// The query that matches every document.
pub fn query_all() -> (q: Query)
    ensures
        q@ == QueryModel::All,
{
    Query::All
}

/// The query that matches no document.
pub fn query_empty() -> (q: Query)
    ensures
        q@ == QueryModel::Empty,
{
    Query::Empty
}

pub open spec fn bad_facet(name: Seq<char>, path: Seq<char>) -> CompiledModel {
    Err(
        QueryErrorModel::InvalidDescriptor { field: name, reason: FaultModel::FacetPath { path } },
    )
}

pub open spec fn unsupported(name: Seq<char>, field_type: FieldType) -> CompiledModel {
    Err(
        QueryErrorModel::InvalidDescriptor {
            field: name,
            reason: FaultModel::UnsupportedType { field_type },
        },
    )
}

/// The query for the documents under a facet: an exact term on the facet
/// field called `name`, the field found by its name in the schema.
pub open spec fn facet_query(fields: Seq<FieldModel>, name: Seq<char>, path: Seq<char>) -> CompiledModel {
    match lookup(fields, name) {
        None => not_found(name),
        Some(i) => if fields[i].field_type != FieldType::Facet {
            unsupported(name, fields[i].field_type)
        } else if !rooted(path) {
            bad_facet(name, path)
        } else {
            Ok(basic_term(i as u32, TypedModel::Facet(facet_encoding(path))))
        },
    }
}

/// Builds the facet query from what the engine made of the path.
pub fn facet_query_checked(
    schema: &Schema,
    field_name: &str,
    facet_path: &str,
    encoded: Option<String>,
) -> (r: Compiled)
    requires
        match encoded {
            Some(e) => rooted(facet_path@) && e@ == facet_encoding(facet_path@),
            None => !rooted(facet_path@),
        },
    ensures
        compiled_model(r) == facet_query(schema@, field_name@, facet_path@),
{
    match schema.get_field(field_name) {
        None => missing(field_name),
        Some(field) => {
            let field_type = schema.get_field_entry(field).field_type;
            if field_type != FieldType::Facet {
                Err(
                    QueryError::InvalidDescriptor {
                        field: copy_text(field_name),
                        reason: Fault::UnsupportedType { field_type },
                    },
                )
            } else {
                match encoded {
                    Some(e) => basic(field, TypedValue::Facet(e)),
                    None => Err(
                        QueryError::InvalidDescriptor {
                            field: copy_text(field_name),
                            reason: Fault::FacetPath { path: copy_text(facet_path) },
                        },
                    ),
                }
            }
        },
    }
}

/// Compiles the query for the documents under a facet.
pub fn facet_term_query(schema: &Schema, field_name: &str, facet_path: &str) -> (r: Compiled)
    ensures
        compiled_model(r) == facet_query(schema@, field_name@, facet_path@),
{
    facet_query_checked(schema, field_name, facet_path, facet_encode(facet_path))
}

/// Whether every path starts at the root.
pub open spec fn all_rooted(paths: Seq<Seq<char>>) -> bool {
    forall|i: int| 0 <= i < paths.len() ==> rooted(#[trigger] paths[i])
}

/// The first path that does not start at the root.
pub open spec fn first_unrooted(paths: Seq<Seq<char>>) -> Seq<char>
    decreases paths.len(),
{
    if paths.len() == 0 {
        Seq::empty()
    } else if !all_rooted(paths.drop_last()) {
        first_unrooted(paths.drop_last())
    } else {
        paths.last()
    }
}

/// A clause for each facet: a document should be under one of them.
pub open spec fn should_any(field: u32, paths: Seq<Seq<char>>) -> QueryModel {
    QueryModel::Boolean {
        clauses: paths.map_values(
            |p: Seq<char>|
                (Occur::Should, basic_term(field, TypedModel::Facet(facet_encoding(p)))),
        ),
    }
}

/// The query for the documents under any of several facets of the field
/// called `name`.
pub open spec fn facets_query(fields: Seq<FieldModel>, name: Seq<char>, paths: Seq<Seq<char>>) -> CompiledModel {
    match lookup(fields, name) {
        None => not_found(name),
        Some(i) => if fields[i].field_type != FieldType::Facet {
            unsupported(name, fields[i].field_type)
        } else if !all_rooted(paths) {
            bad_facet(name, first_unrooted(paths))
        } else {
            Ok(should_any(i as u32, paths))
        },
    }
}

/// Compiles the query for the documents under any of several facets.
#[verifier::loop_isolation(false)]
pub fn facet_multi_query(schema: &Schema, field_name: &str, facet_paths: &Vec<String>) -> (r:
    Compiled)
    ensures
        compiled_model(r) == facets_query(schema@, field_name@, texts(facet_paths@)),
{
    match schema.get_field(field_name) {
        None => missing(field_name),
        Some(field) => {
            let field_type = schema.get_field_entry(field).field_type;
            if field_type != FieldType::Facet {
                return Err(
                    QueryError::InvalidDescriptor {
                        field: copy_text(field_name),
                        reason: Fault::UnsupportedType { field_type },
                    },
                );
            }
            let ghost paths = texts(facet_paths@);
            let mut clauses: Vec<(Occur, Query)> = Vec::new();
            let mut i: usize = 0;
            while i < facet_paths.len()
                invariant
                    i <= facet_paths.len(),
                    paths == texts(facet_paths@),
                    clauses.len() == i,
                    all_rooted(paths.take(i as int)),
                    forall|k: int|
                        0 <= k < i ==> (#[trigger] clauses@[k]).0 == Occur::Should && clauses@[k].1@
                            == basic_term(field, TypedModel::Facet(facet_encoding(paths[k]))),
                decreases facet_paths.len() - i,
            {
                let path = facet_paths[i].as_str();
                proof {
                    assert(paths[i as int] == path@);
                }
                match facet_encode(path) {
                    Some(e) => {
                        clauses.push(
                            (
                                Occur::Should,
                                Query::Term {
                                    term: Term { field, value: TypedValue::Facet(e) },
                                    record: IndexRecord::Basic,
                                },
                            ),
                        );
                        proof {
                            assert forall|k: int| 0 <= k < i + 1 implies rooted(
                                #[trigger] paths.take(i + 1)[k],
                            ) by {
                                if k < i {
                                    assert(paths.take(i as int)[k] == paths.take(i + 1)[k]);
                                }
                            }
                        }
                    },
                    None => {
                        proof {
                            lemma_first_unrooted(paths, i as int);
                        }
                        return Err(
                            QueryError::InvalidDescriptor {
                                field: copy_text(field_name),
                                reason: Fault::FacetPath { path: copy_text(path) },
                            },
                        );
                    },
                }
                i += 1;
            }
            proof {
                assert(paths.take(paths.len() as int) =~= paths);
                lemma_clause_models(clauses@);
                assert(clause_models(clauses@) =~= should_any(field, paths)->clauses);
            }
            Ok(Query::Boolean { clauses })
        },
    }
}

/// The path at `i` is the first that does not start at the root, where
/// every path before it does and it does not.
pub proof fn lemma_first_unrooted(paths: Seq<Seq<char>>, i: int)
    requires
        0 <= i < paths.len(),
        all_rooted(paths.take(i)),
        !rooted(paths[i]),
    ensures
        !all_rooted(paths),
        first_unrooted(paths) == paths[i],
    decreases paths.len(),
{
    if i == paths.len() - 1 {
        assert(paths.drop_last() =~= paths.take(i));
    } else {
        assert(paths.drop_last().take(i) =~= paths.take(i));
        assert(paths.drop_last()[i] == paths[i]);
        lemma_first_unrooted(paths.drop_last(), i);
    }
}

/// The encoded form of a facet path, or why the path is none.
pub fn facet_from_text(facet_path: &str) -> (r: Result<String, Fault>)
    ensures
        match r {
            Ok(e) => rooted(facet_path@) && e@ == facet_encoding(facet_path@),
            Err(f) => !rooted(facet_path@) && f@ == (FaultModel::FacetPath { path: facet_path@ }),
        },
{
    match facet_encode(facet_path) {
        Some(e) => Ok(e),
        None => Err(Fault::FacetPath { path: copy_text(facet_path) }),
    }
}

/// The path text of a facet given by its encoded form.
pub fn facet_to_string(encoded: &str) -> (path: String)
    ensures
        path@ == facet_path_of(encoded@),
{
    facet_display(encoded)
}

/// The fields that a query parser searches where a query names none: the
/// field of each name, in order. At least one name is needed, and each
/// must be a field; the first that is none decides the error.
pub open spec fn default_fields_of(fields: Seq<FieldModel>, names: Seq<Seq<char>>) -> Result<
    Seq<u32>,
    QueryErrorModel,
> {
    if names.len() == 0 {
        Err(QueryErrorModel::NoDefaultFields)
    } else {
        resolved_fields(fields, names)
    }
}

pub open spec fn resolved_fields(fields: Seq<FieldModel>, names: Seq<Seq<char>>) -> Result<
    Seq<u32>,
    QueryErrorModel,
>
    decreases names.len(),
{
    if names.len() == 0 {
        Ok(Seq::empty())
    } else {
        match resolved_fields(fields, names.drop_last()) {
            Err(e) => Err(e),
            Ok(ids) => match lookup(fields, names.last()) {
                Some(i) => Ok(ids.push(i as u32)),
                None => Err(QueryErrorModel::FieldNotFound { field: names.last() }),
            },
        }
    }
}

proof fn lemma_resolved_error(fields: Seq<FieldModel>, names: Seq<Seq<char>>, n: int)
    requires
        0 <= n <= names.len(),
        resolved_fields(fields, names.take(n)) is Err,
    ensures
        resolved_fields(fields, names) == resolved_fields(fields, names.take(n)),
    decreases names.len(),
{
    if n < names.len() {
        assert(names.drop_last().take(n) =~= names.take(n));
        lemma_resolved_error(fields, names.drop_last(), n);
    } else {
        assert(names.take(n) =~= names);
    }
}

/// Resolves the default fields of a query parser.
pub fn query_parser_new(schema: &Schema, default_fields: &Vec<String>) -> (r: Result<
    Vec<u32>,
    QueryError,
>)
    ensures
        match r {
            Ok(ids) => default_fields_of(schema@, texts(default_fields@)) == Ok::<
                Seq<u32>,
                QueryErrorModel,
            >(ids@),
            Err(e) => default_fields_of(schema@, texts(default_fields@)) == Err::<
                Seq<u32>,
                QueryErrorModel,
            >(e@),
        },
{
    if default_fields.len() == 0 {
        return Err(QueryError::NoDefaultFields);
    }
    let ghost names = texts(default_fields@);
    let mut ids: Vec<u32> = Vec::new();
    let mut i: usize = 0;
    while i < default_fields.len()
        invariant
            i <= default_fields.len(),
            names == texts(default_fields@),
            resolved_fields(schema@, names.take(i as int)) == Ok::<Seq<u32>, QueryErrorModel>(ids@),
        decreases default_fields.len() - i,
    {
        let name = default_fields[i].as_str();
        proof {
            assert(names.take(i + 1).drop_last() =~= names.take(i as int));
            assert(names.take(i + 1).last() == name@);
        }
        match schema.get_field(name) {
            Some(id) => {
                ids.push(id);
            },
            None => {
                proof {
                    lemma_resolved_error(schema@, names, i + 1);
                }
                return Err(QueryError::FieldNotFound { field: copy_text(name) });
            },
        }
        i += 1;
    }
    proof {
        assert(names.take(names.len() as int) =~= names);
    }
    Ok(ids)
}

/// A query text that holds more than whitespace.
pub open spec fn has_query_text(text: Seq<char>) -> bool {
    trimmed(text).len() > 0
}

/// Checks a query text before the engine parses it: it must hold more than
/// whitespace.
pub fn query_parser_parse(query_str: &str) -> (r: Result<(), QueryError>)
    ensures
        match r {
            Ok(_) => has_query_text(query_str@),
            Err(e) => !has_query_text(query_str@) && e@ == QueryErrorModel::EmptyQuery,
        },
{
    let v = chars_of(query_str);
    let t = trim_chars(&v);
    if t.len() == 0 {
        Err(QueryError::EmptyQuery)
    } else {
        Ok(())
    }
}

/// A single value: a text, a number or a truth value.
pub open spec fn is_scalar(v: DynModel) -> bool {
    v is Str || v is Unsigned || v is Signed || v is Float || v is Bool
}

/// The typed values of a value that the field takes; none of any other.
pub open spec fn usable(ft: FieldType, v: DynModel) -> Seq<TypedModel> {
    match coerce_spec(ft, v) {
        Ok(vs) => vs,
        Err(_) => Seq::empty(),
    }
}

/// The typed values of the texts among the items, in order.
pub open spec fn seed_of_texts(ft: FieldType, items: Seq<DynModel>) -> Seq<TypedModel>
    decreases items.len(),
{
    if items.len() == 0 {
        Seq::empty()
    } else if items.last() is Str {
        seed_of_texts(ft, items.drop_last()) + usable(ft, items.last())
    } else {
        seed_of_texts(ft, items.drop_last())
    }
}

/// What a value of the seed document gives for a field: a single value as
/// the field takes it, a list by its texts, anything else nothing.
pub open spec fn seed_of_value(ft: FieldType, v: DynModel) -> Seq<TypedModel> {
    match v {
        DynModel::List(items) => seed_of_texts(ft, items),
        _ => if is_scalar(v) {
            usable(ft, v)
        } else {
            Seq::empty()
        },
    }
}

/// The seed of a more-like-this query: for each entry of the seed document
/// that names a field and gives it a value, the field with its values.
pub open spec fn seed_fields(fields: Seq<FieldModel>, entries: Seq<(Seq<char>, DynModel)>) -> Seq<
    (u32, Seq<TypedModel>),
>
    decreases entries.len(),
{
    if entries.len() == 0 {
        Seq::empty()
    } else {
        let before = seed_fields(fields, entries.drop_last());
        match lookup(fields, entries.last().0) {
            Some(i) => {
                let vs = seed_of_value(fields[i].field_type, entries.last().1);
                if vs.len() > 0 {
                    before.push((i as u32, vs))
                } else {
                    before
                }
            },
            None => before,
        }
    }
}

/// The name under which a fault of the boost factor is reported.
pub open spec fn boost_factor_name() -> Seq<char> {
    "boost_factor"@
}

/// The more-like-this query of a seed document, given as what its JSON
/// text holds. It fails only where the text is no JSON, the boost factor no
/// number, or the document gives no field a value.
pub open spec fn more_like_this(
    fields: Seq<FieldModel>,
    doc: Option<DynModel>,
    params: MoreLikeThisModel,
) -> CompiledModel {
    match doc {
        None => Err(
            QueryErrorModel::InvalidDescriptor { field: Seq::empty(), reason: FaultModel::Json },
        ),
        Some(d) => if !literal_or_absent(params.boost_factor) {
            bad_value(boost_factor_name(), params.boost_factor->0, FieldType::F64)
        } else {
            match d {
                DynModel::Object(es) => {
                    let seed = seed_fields(fields, es);
                    if seed.len() == 0 {
                        Err(QueryErrorModel::NoSeedFields)
                    } else {
                        Ok(QueryModel::MoreLikeThis { seed, params })
                    }
                },
                _ => Err(QueryErrorModel::NoSeedFields),
            }
        },
    }
}

fn append_usable(out: &mut Vec<TypedValue>, field_type: FieldType, value: &DynValue)
    ensures
        typed_models(final(out)@) == typed_models(old(out)@) + usable(field_type, value@),
{
    let ghost before = typed_models(out@);
    proof {
        lemma_typed_models(out@);
    }
    match coerce(field_type, value) {
        Ok(values) => {
            let ghost added = typed_models(values@);
            proof {
                lemma_typed_models(values@);
            }
            for v in it: values
                invariant
                    it.seq() == values@,
                    added == typed_models(values@),
                    added.len() == values@.len(),
                    forall|k: int| 0 <= k < values@.len() ==> #[trigger] added[k] == values@[k]@,
                    before == typed_models(old(out)@),
                    typed_models(out@) == before + added.take(it.index() as int),
            {
                proof {
                    let i = it.index() as int;
                    assert(out@.push(v).drop_last() =~= out@);
                    assert(before + added.take(i + 1) =~= (before + added.take(i)).push(v@));
                }
                out.push(v);
            }
            proof {
                assert(added.take(added.len() as int) =~= added);
            }
        },
        Err(_) => {
            proof {
                assert(before + Seq::<TypedModel>::empty() =~= before);
            }
        },
    }
}

fn seed_values(field_type: FieldType, value: &DynValue) -> (out: Vec<TypedValue>)
    ensures
        typed_models(out@) == seed_of_value(field_type, value@),
{
    let mut out: Vec<TypedValue> = Vec::new();
    match value {
        DynValue::List(items) => {
            let ghost ms = dyn_models(items@);
            proof {
                lemma_dyn_models(items@);
            }
            let mut i: usize = 0;
            while i < items.len()
                invariant
                    i <= items.len(),
                    ms == dyn_models(items@),
                    ms.len() == items@.len(),
                    forall|k: int| 0 <= k < items@.len() ==> #[trigger] ms[k] == items@[k]@,
                    typed_models(out@) == seed_of_texts(field_type, ms.take(i as int)),
                decreases items.len() - i,
            {
                proof {
                    assert(ms.take(i + 1).drop_last() =~= ms.take(i as int));
                    assert(ms.take(i + 1).last() == items@[i as int]@);
                }
                match &items[i] {
                    DynValue::Str(_) => {
                        append_usable(&mut out, field_type, &items[i]);
                    },
                    _ => {},
                }
                i += 1;
            }
            proof {
                assert(ms.take(ms.len() as int) =~= ms);
            }
        },
        DynValue::Str(_) | DynValue::Unsigned(_) | DynValue::Signed(_) | DynValue::Float(_)
        | DynValue::Bool(_) => {
            append_usable(&mut out, field_type, value);
            proof {
                assert(Seq::<TypedModel>::empty() + usable(field_type, value@) =~= usable(
                    field_type,
                    value@,
                ));
            }
        },
        _ => {},
    }
    out
}

/// Builds the more-like-this query from the seed document that was read.
pub fn more_like_this_from(schema: &Schema, doc: Option<DynValue>, params: MoreLikeThisParams) -> (r:
    Compiled)
    ensures
        compiled_model(r) == more_like_this(
            schema@,
            match doc {
                Some(d) => Some(d@),
                None => None,
            },
            params@,
        ),
{
    let document = match doc {
        None => {
            return Err(
                QueryError::InvalidDescriptor { field: String::new(), reason: Fault::Json },
            );
        },
        Some(d) => d,
    };
    match &params.boost_factor {
        Some(text) => {
            if !float_literal(text.as_str()) {
                return value_fault("boost_factor", text.as_str(), FieldType::F64);
            }
        },
        None => {},
    }
    match &document {
        DynValue::Object(entries) => {
            let ghost ms = dyn_entry_models(entries@);
            proof {
                lemma_dyn_entry_models(entries@);
            }
            let mut seed: Vec<(u32, Vec<TypedValue>)> = Vec::new();
            let mut i: usize = 0;
            proof {
                assert(seed_models(seed@) =~= Seq::<(u32, Seq<TypedModel>)>::empty());
            }
            while i < entries.len()
                invariant
                    i <= entries.len(),
                    ms == dyn_entry_models(entries@),
                    ms.len() == entries@.len(),
                    forall|k: int|
                        0 <= k < entries@.len() ==> #[trigger] ms[k] == (
                            entries@[k].0@,
                            entries@[k].1@,
                        ),
                    seed_models(seed@) == seed_fields(schema@, ms.take(i as int)),
                decreases entries.len() - i,
            {
                proof {
                    assert(ms.take(i + 1).drop_last() =~= ms.take(i as int));
                    assert(ms.take(i + 1).last() == (entries@[i as int].0@, entries@[i as int].1@));
                }
                match schema.get_field(entries[i].0.as_str()) {
                    Some(field) => {
                        let field_type = schema.get_field_entry(field).field_type;
                        let values = seed_values(field_type, &entries[i].1);
                        proof {
                            lemma_typed_models(values@);
                        }
                        if values.len() > 0 {
                            proof {
                                assert(seed_models(seed@.push((field, values))) =~= seed_models(
                                    seed@,
                                ).push((field, typed_models(values@))));
                            }
                            seed.push((field, values));
                        }
                    },
                    None => {},
                }
                i += 1;
            }
            proof {
                assert(ms.take(ms.len() as int) =~= ms);
                assert(seed_models(seed@).len() == seed@.len());
            }
            if seed.len() == 0 {
                Err(QueryError::NoSeedFields)
            } else {
                Ok(Query::MoreLikeThis { seed, params })
            }
        },
        _ => Err(QueryError::NoSeedFields),
    }
}

/// Compiles a more-like-this query from the JSON text of a seed document.
/// A threshold that is absent leaves the engine's default.
pub fn query_more_like_this(
    schema: &Schema,
    doc_json: &str,
    min_doc_frequency: Option<u64>,
    max_doc_frequency: Option<u64>,
    min_term_frequency: Option<usize>,
    max_query_terms: Option<usize>,
    min_word_length: Option<usize>,
    max_word_length: Option<usize>,
    boost_factor: Option<String>,
) -> (r: Compiled)
    ensures
        compiled_model(r) == more_like_this(
            schema@,
            json_of_text(doc_json@),
            MoreLikeThisModel {
                min_doc_frequency,
                max_doc_frequency,
                min_term_frequency,
                max_query_terms,
                min_word_length,
                max_word_length,
                boost_factor: opt_text(boost_factor),
            },
        ),
{
    let params = MoreLikeThisParams {
        min_doc_frequency,
        max_doc_frequency,
        min_term_frequency,
        max_query_terms,
        min_word_length,
        max_word_length,
        boost_factor,
    };
    more_like_this_from(schema, parse_json(doc_json), params)
}

} // verus!
