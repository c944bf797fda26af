//! The query model: terms and the tree of query expressions.
use vstd::prelude::*;
use crate::schema::IndexRecord;
use crate::value::{lemma_typed_models, typed_models, TypedModel, TypedValue};

verus! {

/// The role of a clause in a boolean query.
#[derive(Clone, Copy, Debug, PartialEq, Eq, Structural)]
pub enum Occur {
    Must,
    Should,
    MustNot,
}

/// A field and one typed value: the unit of exact lookup.
#[derive(Debug, PartialEq)]
pub struct Term {
    pub field: u32,
    pub value: TypedValue,
}

pub struct TermModel {
    pub field: u32,
    pub value: TypedModel,
}

impl View for Term {
    type V = TermModel;

    open spec fn view(&self) -> TermModel {
        TermModel { field: self.field, value: self.value@ }
    }
}

pub open spec fn term_models(ts: Seq<Term>) -> Seq<TermModel> {
    ts.map_values(|t: Term| t@)
}

/// The text term of `field` for each of `words`.
pub open spec fn text_terms(field: u32, words: Seq<Seq<char>>) -> Seq<TermModel> {
    words.map_values(|w: Seq<char>| TermModel { field, value: TypedModel::Str(w) })
}

/// Thresholds of a more-like-this query; `None` leaves the engine's default.
/// `boost_factor` holds the decimal literal of the factor.
#[derive(Debug, PartialEq)]
pub struct MoreLikeThisParams {
    pub min_doc_frequency: Option<u64>,
    pub max_doc_frequency: Option<u64>,
    pub min_term_frequency: Option<usize>,
    pub max_query_terms: Option<usize>,
    pub min_word_length: Option<usize>,
    pub max_word_length: Option<usize>,
    pub boost_factor: Option<String>,
}

pub struct MoreLikeThisModel {
    pub min_doc_frequency: Option<u64>,
    pub max_doc_frequency: Option<u64>,
    pub min_term_frequency: Option<usize>,
    pub max_query_terms: Option<usize>,
    pub min_word_length: Option<usize>,
    pub max_word_length: Option<usize>,
    pub boost_factor: Option<Seq<char>>,
}

impl View for MoreLikeThisParams {
    type V = MoreLikeThisModel;

    open spec fn view(&self) -> MoreLikeThisModel {
        MoreLikeThisModel {
            min_doc_frequency: self.min_doc_frequency,
            max_doc_frequency: self.max_doc_frequency,
            min_term_frequency: self.min_term_frequency,
            max_query_terms: self.max_query_terms,
            min_word_length: self.min_word_length,
            max_word_length: self.max_word_length,
            boost_factor: match self.boost_factor {
                Some(b) => Some(b@),
                None => None,
            },
        }
    }
}

/// A query expression. A bound of a range is included when present.
#[derive(Debug, PartialEq)]
pub enum Query {
    Term { term: Term, record: IndexRecord },
    Phrase { terms: Vec<Term> },
    Range { field: u32, lower: Option<TypedValue>, upper: Option<TypedValue> },
    Boolean { clauses: Vec<(Occur, Query)> },
    Fuzzy { term: Term, distance: u8, prefix: bool },
    Regex { field: u32, pattern: String },
    PhrasePrefix { terms: Vec<Term>, max_expansions: u32 },
    Exists { field_name: String },
    All,
    Empty,
    MoreLikeThis { seed: Vec<(u32, Vec<TypedValue>)>, params: MoreLikeThisParams },
}

pub enum QueryModel {
    Term { term: TermModel, record: IndexRecord },
    Phrase { terms: Seq<TermModel> },
    Range { field: u32, lower: Option<TypedModel>, upper: Option<TypedModel> },
    Boolean { clauses: Seq<(Occur, QueryModel)> },
    Fuzzy { term: TermModel, distance: u8, prefix: bool },
    Regex { field: u32, pattern: Seq<char> },
    PhrasePrefix { terms: Seq<TermModel>, max_expansions: u32 },
    Exists { field_name: Seq<char> },
    All,
    Empty,
    MoreLikeThis { seed: Seq<(u32, Seq<TypedModel>)>, params: MoreLikeThisModel },
}

pub open spec fn bound_model(b: Option<TypedValue>) -> Option<TypedModel> {
    match b {
        Some(v) => Some(v@),
        None => None,
    }
}

pub open spec fn seed_models(seed: Seq<(u32, Vec<TypedValue>)>) -> Seq<(u32, Seq<TypedModel>)> {
    seed.map_values(|e: (u32, Vec<TypedValue>)| (e.0, typed_models(e.1@)))
}

/// The content of a query expression.
pub open spec fn query_model(q: Query) -> QueryModel
    decreases q,
{
    match q {
        Query::Term { term, record } => QueryModel::Term { term: term@, record },
        Query::Phrase { terms } => QueryModel::Phrase { terms: term_models(terms@) },
        Query::Range { field, lower, upper } => QueryModel::Range {
            field,
            lower: bound_model(lower),
            upper: bound_model(upper),
        },
        Query::Boolean { clauses } => QueryModel::Boolean { clauses: clause_models(clauses@) },
        Query::Fuzzy { term, distance, prefix } => QueryModel::Fuzzy {
            term: term@,
            distance,
            prefix,
        },
        Query::Regex { field, pattern } => QueryModel::Regex { field, pattern: pattern@ },
        Query::PhrasePrefix { terms, max_expansions } => QueryModel::PhrasePrefix {
            terms: term_models(terms@),
            max_expansions,
        },
        Query::Exists { field_name } => QueryModel::Exists { field_name: field_name@ },
        Query::All => QueryModel::All,
        Query::Empty => QueryModel::Empty,
        Query::MoreLikeThis { seed, params } => QueryModel::MoreLikeThis {
            seed: seed_models(seed@),
            params: params@,
        },
    }
}

/// The contents of the clauses of a boolean query.
pub open spec fn clause_models(cs: Seq<(Occur, Query)>) -> Seq<(Occur, QueryModel)>
    decreases cs,
{
    if cs.len() == 0 {
        Seq::empty()
    } else {
        clause_models(cs.drop_last()).push((cs.last().0, query_model(cs.last().1)))
    }
}

impl View for Query {
    type V = QueryModel;

    open spec fn view(&self) -> QueryModel {
        query_model(*self)
    }
}

pub proof fn lemma_clause_models(cs: Seq<(Occur, Query)>)
    ensures
        clause_models(cs).len() == cs.len(),
        forall|i: int| 0 <= i < cs.len() ==> #[trigger] clause_models(cs)[i] == (cs[i].0, cs[i].1@),
    decreases cs.len(),
{
    if cs.len() > 0 {
        lemma_clause_models(cs.drop_last());
    }
}

/// The query that matches a term exactly, recording no more than presence.
pub open spec fn basic_term(field: u32, value: TypedModel) -> QueryModel {
    QueryModel::Term { term: TermModel { field, value }, record: IndexRecord::Basic }
}

/// A conjunction: every term of `terms` must match.
pub open spec fn must_all(terms: Seq<TermModel>) -> QueryModel {
    QueryModel::Boolean {
        clauses: terms.map_values(
            |t: TermModel| (Occur::Must, QueryModel::Term { term: t, record: IndexRecord::Basic }),
        ),
    }
}

/// The text terms of `field` for `words`, in order.
pub fn make_text_terms(field: u32, words: Vec<String>) -> (terms: Vec<Term>)
    ensures
        term_models(terms@) == text_terms(field, crate::text::texts(words@)),
{
    let ghost all = crate::text::texts(words@);
    let mut terms: Vec<Term> = Vec::new();
    for w in it: words
        invariant
            it.seq() == words@,
            all == crate::text::texts(words@),
            terms.len() == it.index(),
            forall|k: int|
                0 <= k < it.index() ==> (#[trigger] terms@[k])@ == (TermModel {
                    field,
                    value: TypedModel::Str(all[k]),
                }),
    {
        terms.push(Term { field, value: TypedValue::Str(w) });
    }
    proof {
        assert(term_models(terms@) =~= text_terms(field, all));
    }
    terms
}

/// The conjunction of exact matches of `terms`.
pub fn make_must_all(terms: Vec<Term>) -> (q: Query)
    ensures
        q@ == must_all(term_models(terms@)),
{
    let ghost all = term_models(terms@);
    let mut clauses: Vec<(Occur, Query)> = Vec::new();
    for t in it: terms
        invariant
            it.seq() == terms@,
            all == term_models(terms@),
            clauses.len() == it.index(),
            forall|k: int|
                0 <= k < it.index() ==> (#[trigger] clauses@[k]).0 == Occur::Must && clauses@[k].1@
                    == (QueryModel::Term { term: all[k], record: IndexRecord::Basic }),
    {
        clauses.push((Occur::Must, Query::Term { term: t, record: IndexRecord::Basic }));
    }
    proof {
        lemma_clause_models(clauses@);
        assert(clause_models(clauses@) =~= must_all(all)->clauses);
    }
    Query::Boolean { clauses }
}


impl Term {
    /// A term with the same content.
    pub fn duplicate(&self) -> (r: Term)
        ensures
            r@ == self@,
    {
        Term { field: self.field, value: self.value.duplicate() }
    }
}

fn duplicate_terms(terms: &Vec<Term>) -> (out: Vec<Term>)
    ensures
        term_models(out@) == term_models(terms@),
{
    let mut out: Vec<Term> = Vec::new();
    let mut i: usize = 0;
    while i < terms.len()
        invariant
            i <= terms.len(),
            out.len() == i,
            forall|k: int| 0 <= k < i ==> (#[trigger] out@[k])@ == terms@[k]@,
        decreases terms.len() - i,
    {
        out.push(terms[i].duplicate());
        i += 1;
    }
    proof {
        assert(term_models(out@) =~= term_models(terms@));
    }
    out
}

fn duplicate_values(values: &Vec<TypedValue>) -> (out: Vec<TypedValue>)
    ensures
        typed_models(out@) == typed_models(values@),
{
    let mut out: Vec<TypedValue> = Vec::new();
    let mut i: usize = 0;
    while i < values.len()
        invariant
            i <= values.len(),
            out.len() == i,
            forall|k: int| 0 <= k < i ==> (#[trigger] out@[k])@ == values@[k]@,
        decreases values.len() - i,
    {
        out.push(values[i].duplicate());
        i += 1;
    }
    proof {
        lemma_typed_models(out@);
        lemma_typed_models(values@);
        assert(typed_models(out@) =~= typed_models(values@));
    }
    out
}

fn duplicate_bound(b: &Option<TypedValue>) -> (r: Option<TypedValue>)
    ensures
        bound_model(r) == bound_model(*b),
{
    match b {
        Some(v) => Some(v.duplicate()),
        None => None,
    }
}

impl Query {
    /// A query with the same content.
    #[verifier::loop_isolation(false)]
    pub fn duplicate(&self) -> (r: Query)
        ensures
            r@ == self@,
        decreases self,
    {
        match self {
            Query::Term { term, record } => Query::Term { term: term.duplicate(), record: *record },
            Query::Phrase { terms } => Query::Phrase { terms: duplicate_terms(terms) },
            Query::Range { field, lower, upper } => Query::Range {
                field: *field,
                lower: duplicate_bound(lower),
                upper: duplicate_bound(upper),
            },
            Query::Boolean { clauses } => {
                let mut out: Vec<(Occur, Query)> = Vec::new();
                let mut i: usize = 0;
                proof {
                    assert(clauses@.take(0) =~= Seq::<(Occur, Query)>::empty());
                }
                while i < clauses.len()
                    invariant
                        i <= clauses.len(),
                        clause_models(out@) == clause_models(clauses@.take(i as int)),
                    decreases clauses.len() - i,
                {
                    let d = clauses[i].1.duplicate();
                    proof {
                        assert(clauses@.take(i + 1).drop_last() =~= clauses@.take(i as int));
                        assert(clauses@.take(i + 1).last() == clauses@[i as int]);
                        assert(out@.push((clauses@[i as int].0, d)).drop_last() =~= out@);
                    }
                    out.push((clauses[i].0, d));
                    i += 1;
                }
                proof {
                    assert(clauses@.take(clauses@.len() as int) =~= clauses@);
                }
                Query::Boolean { clauses: out }
            },
            Query::Fuzzy { term, distance, prefix } => Query::Fuzzy {
                term: term.duplicate(),
                distance: *distance,
                prefix: *prefix,
            },
            Query::Regex { field, pattern } => Query::Regex {
                field: *field,
                pattern: pattern.clone(),
            },
            Query::PhrasePrefix { terms, max_expansions } => Query::PhrasePrefix {
                terms: duplicate_terms(terms),
                max_expansions: *max_expansions,
            },
            Query::Exists { field_name } => Query::Exists { field_name: field_name.clone() },
            Query::All => Query::All,
            Query::Empty => Query::Empty,
            Query::MoreLikeThis { seed, params } => {
                let mut out: Vec<(u32, Vec<TypedValue>)> = Vec::new();
                let mut i: usize = 0;
                while i < seed.len()
                    invariant
                        i <= seed.len(),
                        out.len() == i,
                        forall|k: int|
                            0 <= k < i ==> (#[trigger] out@[k]).0 == seed@[k].0 && typed_models(
                                out@[k].1@,
                            ) == typed_models(seed@[k].1@),
                    decreases seed.len() - i,
                {
                    out.push((seed[i].0, duplicate_values(&seed[i].1)));
                    i += 1;
                }
                proof {
                    assert(seed_models(out@) =~= seed_models(seed@));
                }
                Query::MoreLikeThis {
                    seed: out,
                    params: MoreLikeThisParams {
                        min_doc_frequency: params.min_doc_frequency,
                        max_doc_frequency: params.max_doc_frequency,
                        min_term_frequency: params.min_term_frequency,
                        max_query_terms: params.max_query_terms,
                        min_word_length: params.min_word_length,
                        max_word_length: params.max_word_length,
                        boost_factor: match &params.boost_factor {
                            Some(b) => Some(b.clone()),
                            None => None,
                        },
                    },
                }
            },
        }
    }
}

} // verus!
