//! Query descriptions as one type, and their compilation.
use vstd::prelude::*;
use crate::compile::{
    boolean_query, compiled_model, exists_query, facet_query, facet_term_query, float_range_query,
    fuzzy_query, i64_bound, more_like_this, phrase_prefix_query, phrase_query, query_all,
    query_boolean, query_empty, query_exists, query_fuzzy, query_models, query_more_like_this,
    query_phrase, query_phrase_prefix, query_range_f64, query_range_i64, query_range_u64,
    query_regex, query_term, query_wildcard, range_query, regex_query, term_query, u64_bound,
    wildcard_query, wildcard_regex, Compiled, CompiledModel, QueryError, QueryErrorModel,
};
use crate::engine::regex_valid;
use crate::json::json_of_text;
use crate::query::{MoreLikeThisModel, Query, QueryModel};
use crate::schema::{FieldModel, Schema};
use crate::text::{opt_text, texts};

verus! {

/// The description of a query, as a caller gives it.
#[derive(Debug, PartialEq)]
#[allow(inconsistent_fields)]
pub enum QueryDescriptor {
    Term { field: String, value: String },
    Phrase { field: String, terms: Vec<String> },
    RangeU64 { field: String, start: Option<u64>, end: Option<u64> },
    RangeI64 { field: String, start: Option<i64>, end: Option<i64> },
    RangeF64 { field: String, start: Option<String>, end: Option<String> },
    Boolean { must: Vec<QueryDescriptor>, should: Vec<QueryDescriptor>, must_not: Vec<QueryDescriptor> },
    Fuzzy { field: String, value: String, distance: u8, prefix: bool },
    Regex { field: String, pattern: String },
    Wildcard { field: String, pattern: String },
    PhrasePrefix { field: String, terms: Vec<String>, max_expansions: u32 },
    Exists { field: String },
    All,
    Empty,
    MoreLikeThis {
        doc_json: String,
        min_doc_frequency: Option<u64>,
        max_doc_frequency: Option<u64>,
        min_term_frequency: Option<usize>,
        max_query_terms: Option<usize>,
        min_word_length: Option<usize>,
        max_word_length: Option<usize>,
        boost_factor: Option<String>,
    },
    FacetTerm { field: String, path: String },
}

/// The query that a description compiles to against the fields of a
/// schema. The clauses of a boolean query are compiled in their order,
/// those that must match first; the first that fails decides the error.
pub open spec fn compiled_query(fields: Seq<FieldModel>, d: QueryDescriptor) -> CompiledModel
    decreases d,
{
    match d {
        QueryDescriptor::Term { field, value } => term_query(fields, field@, value@),
        QueryDescriptor::Phrase { field, terms } => phrase_query(fields, field@, texts(terms@)),
        QueryDescriptor::RangeU64 { field, start, end } => range_query(
            fields,
            field@,
            u64_bound(start),
            u64_bound(end),
        ),
        QueryDescriptor::RangeI64 { field, start, end } => range_query(
            fields,
            field@,
            i64_bound(start),
            i64_bound(end),
        ),
        QueryDescriptor::RangeF64 { field, start, end } => float_range_query(
            fields,
            field@,
            opt_text(start),
            opt_text(end),
        ),
        QueryDescriptor::Boolean { must, should, must_not } => match compiled_queries(
            fields,
            must@,
        ) {
            Err(e) => Err(e),
            Ok(m) => match compiled_queries(fields, should@) {
                Err(e) => Err(e),
                Ok(s) => match compiled_queries(fields, must_not@) {
                    Err(e) => Err(e),
                    Ok(n) => Ok(boolean_query(m, s, n)),
                },
            },
        },
        QueryDescriptor::Fuzzy { field, value, distance, prefix } => fuzzy_query(
            fields,
            field@,
            value@,
            distance,
            prefix,
        ),
        QueryDescriptor::Regex { field, pattern } => regex_query(
            fields,
            field@,
            pattern@,
            regex_valid(pattern@),
        ),
        QueryDescriptor::Wildcard { field, pattern } => wildcard_query(
            fields,
            field@,
            pattern@,
            regex_valid(wildcard_regex(pattern@)),
        ),
        QueryDescriptor::PhrasePrefix { field, terms, max_expansions } => phrase_prefix_query(
            fields,
            field@,
            texts(terms@),
            max_expansions,
        ),
        QueryDescriptor::Exists { field } => exists_query(fields, field@),
        QueryDescriptor::All => Ok(QueryModel::All),
        QueryDescriptor::Empty => Ok(QueryModel::Empty),
        QueryDescriptor::MoreLikeThis {
            doc_json,
            min_doc_frequency,
            max_doc_frequency,
            min_term_frequency,
            max_query_terms,
            min_word_length,
            max_word_length,
            boost_factor,
        } => more_like_this(
            fields,
            json_of_text(doc_json@),
            MoreLikeThisModel {
                min_doc_frequency,
                max_doc_frequency,
                min_term_frequency,
                max_query_terms,
                min_word_length,
                max_word_length,
                boost_factor: opt_text(boost_factor),
            },
        ),
        QueryDescriptor::FacetTerm { field, path } => facet_query(fields, field@, path@),
    }
}

/// The queries that the descriptions compile to, in order.
pub open spec fn compiled_queries(fields: Seq<FieldModel>, ds: Seq<QueryDescriptor>) -> Result<
    Seq<QueryModel>,
    QueryErrorModel,
>
    decreases ds,
{
    if ds.len() == 0 {
        Ok(Seq::empty())
    } else {
        match compiled_queries(fields, ds.drop_last()) {
            Err(e) => Err(e),
            Ok(qs) => match compiled_query(fields, ds.last()) {
                Ok(q) => Ok(qs.push(q)),
                Err(e) => Err(e),
            },
        }
    }
}

proof fn lemma_queries_error(fields: Seq<FieldModel>, ds: Seq<QueryDescriptor>, n: int)
    requires
        0 <= n <= ds.len(),
        compiled_queries(fields, ds.take(n)) is Err,
    ensures
        compiled_queries(fields, ds) == compiled_queries(fields, ds.take(n)),
    decreases ds.len(),
{
    if n < ds.len() {
        assert(ds.drop_last().take(n) =~= ds.take(n));
        lemma_queries_error(fields, ds.drop_last(), n);
    } else {
        assert(ds.take(n) =~= ds);
    }
}

fn copy_strings(ts: &Vec<String>) -> (out: Vec<String>)
    ensures
        texts(out@) == texts(ts@),
{
    let mut out: Vec<String> = Vec::new();
    let mut i: usize = 0;
    while i < ts.len()
        invariant
            i <= ts.len(),
            out.len() == i,
            forall|k: int| 0 <= k < i ==> (#[trigger] out@[k])@ == ts@[k]@,
        decreases ts.len() - i,
    {
        out.push(ts[i].clone());
        i += 1;
    }
    proof {
        assert(texts(out@) =~= texts(ts@));
    }
    out
}

fn copy_option(t: &Option<String>) -> (r: Option<String>)
    ensures
        opt_text(r) == opt_text(*t),
{
    match t {
        Some(s) => Some(s.clone()),
        None => None,
    }
}

/// Compiles the description of a query against a schema.
pub fn compile_query(schema: &Schema, descriptor: &QueryDescriptor) -> (r: Compiled)
    ensures
        compiled_model(r) == compiled_query(schema@, *descriptor),
    decreases descriptor,
{
    match descriptor {
        QueryDescriptor::Term { field, value } => query_term(schema, field.as_str(), value.as_str()),
        QueryDescriptor::Phrase { field, terms } => query_phrase(
            schema,
            field.as_str(),
            copy_strings(terms),
        ),
        QueryDescriptor::RangeU64 { field, start, end } => query_range_u64(
            schema,
            field.as_str(),
            *start,
            *end,
        ),
        QueryDescriptor::RangeI64 { field, start, end } => query_range_i64(
            schema,
            field.as_str(),
            *start,
            *end,
        ),
        QueryDescriptor::RangeF64 { field, start, end } => query_range_f64(
            schema,
            field.as_str(),
            copy_option(start),
            copy_option(end),
        ),
        QueryDescriptor::Boolean { must, should, must_not } => {
            let m = match compile_queries(schema, must) {
                Ok(qs) => qs,
                Err(e) => {
                    return Err(e);
                },
            };
            let s = match compile_queries(schema, should) {
                Ok(qs) => qs,
                Err(e) => {
                    return Err(e);
                },
            };
            let n = match compile_queries(schema, must_not) {
                Ok(qs) => qs,
                Err(e) => {
                    return Err(e);
                },
            };
            Ok(query_boolean(m, s, n))
        },
        QueryDescriptor::Fuzzy { field, value, distance, prefix } => query_fuzzy(
            schema,
            field.as_str(),
            value.as_str(),
            *distance,
            *prefix,
        ),
        QueryDescriptor::Regex { field, pattern } => query_regex(
            schema,
            field.as_str(),
            pattern.as_str(),
        ),
        QueryDescriptor::Wildcard { field, pattern } => query_wildcard(
            schema,
            field.as_str(),
            pattern.as_str(),
        ),
        QueryDescriptor::PhrasePrefix { field, terms, max_expansions } => query_phrase_prefix(
            schema,
            field.as_str(),
            copy_strings(terms),
            *max_expansions,
        ),
        QueryDescriptor::Exists { field } => query_exists(schema, field.as_str()),
        QueryDescriptor::All => Ok(query_all()),
        QueryDescriptor::Empty => Ok(query_empty()),
        QueryDescriptor::MoreLikeThis {
            doc_json,
            min_doc_frequency,
            max_doc_frequency,
            min_term_frequency,
            max_query_terms,
            min_word_length,
            max_word_length,
            boost_factor,
        } => query_more_like_this(
            schema,
            doc_json.as_str(),
            *min_doc_frequency,
            *max_doc_frequency,
            *min_term_frequency,
            *max_query_terms,
            *min_word_length,
            *max_word_length,
            copy_option(boost_factor),
        ),
        QueryDescriptor::FacetTerm { field, path } => facet_term_query(
            schema,
            field.as_str(),
            path.as_str(),
        ),
    }
}

/// Compiles descriptions in order, up to the first that fails.
pub fn compile_queries(schema: &Schema, descriptors: &Vec<QueryDescriptor>) -> (r: Result<
    Vec<Query>,
    QueryError,
>)
    ensures
        match r {
            Ok(qs) => compiled_queries(schema@, descriptors@) == Ok::<
                Seq<QueryModel>,
                QueryErrorModel,
            >(query_models(qs@)),
            Err(e) => compiled_queries(schema@, descriptors@) == Err::<
                Seq<QueryModel>,
                QueryErrorModel,
            >(e@),
        },
    decreases descriptors,
{
    let mut out: Vec<Query> = Vec::new();
    let mut i: usize = 0;
    proof {
        assert(descriptors@.take(0) =~= Seq::<QueryDescriptor>::empty());
        assert(query_models(out@) =~= Seq::<QueryModel>::empty());
    }
    while i < descriptors.len()
        invariant
            i <= descriptors.len(),
            compiled_queries(schema@, descriptors@.take(i as int)) == Ok::<
                Seq<QueryModel>,
                QueryErrorModel,
            >(query_models(out@)),
        decreases descriptors.len() - i,
    {
        proof {
            assert(descriptors@.take(i + 1).drop_last() =~= descriptors@.take(i as int));
            assert(descriptors@.take(i + 1).last() == descriptors@[i as int]);
        }
        match compile_query(schema, &descriptors[i]) {
            Ok(q) => {
                proof {
                    assert(query_models(out@.push(q)) =~= query_models(out@).push(q@));
                }
                out.push(q);
            },
            Err(e) => {
                proof {
                    lemma_queries_error(schema@, descriptors@, i + 1);
                }
                return Err(e);
            },
        }
        i += 1;
    }
    proof {
        assert(descriptors@.take(descriptors@.len() as int) =~= descriptors@);
    }
    Ok(out)
}

} // verus!
