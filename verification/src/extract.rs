//! The terms of a query, as texts.
use vstd::prelude::*;
use vstd::utf8::{decode_utf8, valid_utf8};
use crate::query::{
    clause_models, lemma_clause_models, term_models, Occur, Query, QueryModel, Term, TermModel,
};
use crate::text::{
    chars_of, copy_text, decimal_of, i64_to_text, signed_decimal_of, texts, u64_to_text,
};
use crate::value::{TypedModel, TypedValue};

verus! {

/// `String::from_utf8`: the text that bytes encode in UTF-8, where they
/// encode one.
#[verifier::external_body]
pub(crate) fn text_from_utf8(bytes: &Vec<u8>) -> (r: Option<String>)
    ensures
        match r {
            Some(s) => valid_utf8(bytes@) && s@ == decode_utf8(bytes@),
            None => !valid_utf8(bytes@),
        },
{
    String::from_utf8(bytes.clone()).ok()
}

/// Whether `a` comes before `b` in the order of texts: by the first
/// character in which they differ, a text before any that it begins.
pub open spec fn text_less(a: Seq<char>, b: Seq<char>) -> bool
    decreases a.len(),
{
    if b.len() == 0 {
        false
    } else if a.len() == 0 {
        true
    } else if a[0] != b[0] {
        a[0] < b[0]
    } else {
        text_less(a.skip(1), b.skip(1))
    }
}

/// Texts in rising order, no text twice.
pub open spec fn rising(s: Seq<Seq<char>>) -> bool {
    forall|i: int, j: int| 0 <= i < j < s.len() ==> text_less(#[trigger] s[i], #[trigger] s[j])
}

/// The rising texts `s` with `x` among them.
pub open spec fn inserted(s: Seq<Seq<char>>, x: Seq<char>) -> Seq<Seq<char>>
    decreases s.len(),
{
    if s.len() == 0 {
        seq![x]
    } else if s.last() == x {
        s
    } else if text_less(s.last(), x) {
        s.push(x)
    } else {
        inserted(s.drop_last(), x).push(s.last())
    }
}

/// The text of the value of a term: a text that is not empty, a number in
/// decimal, bytes as the text that they encode where it is not empty. Any
/// other value has none.
pub open spec fn term_text(v: TypedModel) -> Option<Seq<char>> {
    match v {
        TypedModel::Str(s) => if s.len() > 0 {
            Some(s)
        } else {
            None
        },
        TypedModel::U64(u) => Some(decimal_of(u as nat)),
        TypedModel::I64(i) => Some(signed_decimal_of(i as int)),
        TypedModel::F64(t) => Some(t),
        TypedModel::Bytes(b) => if valid_utf8(b) && decode_utf8(b).len() > 0 {
            Some(decode_utf8(b))
        } else {
            None
        },
        _ => None,
    }
}

/// The texts `acc` with the text of a term among them.
pub open spec fn with_term(acc: Seq<Seq<char>>, t: TermModel) -> Seq<Seq<char>> {
    match term_text(t.value) {
        Some(x) => inserted(acc, x),
        None => acc,
    }
}

pub open spec fn with_terms(acc: Seq<Seq<char>>, ts: Seq<TermModel>) -> Seq<Seq<char>>
    decreases ts.len(),
{
    if ts.len() == 0 {
        acc
    } else {
        with_term(with_terms(acc, ts.drop_last()), ts.last())
    }
}

/// The texts `acc` with the texts of the terms of a query among them. A
/// term query holds its term, a phrase its terms, a boolean query the terms
/// of its clauses; no other query holds a term.
pub open spec fn gathered(acc: Seq<Seq<char>>, q: QueryModel) -> Seq<Seq<char>>
    decreases q,
{
    match q {
        QueryModel::Term { term, record } => with_term(acc, term),
        QueryModel::Phrase { terms } => with_terms(acc, terms),
        QueryModel::PhrasePrefix { terms, max_expansions } => with_terms(acc, terms),
        QueryModel::Boolean { clauses } => gathered_clauses(acc, clauses),
        _ => acc,
    }
}

pub open spec fn gathered_clauses(acc: Seq<Seq<char>>, cs: Seq<(Occur, QueryModel)>) -> Seq<
    Seq<char>,
>
    decreases cs,
{
    if cs.len() == 0 {
        acc
    } else {
        gathered(gathered_clauses(acc, cs.drop_last()), cs.last().1)
    }
}

/// Whether a query holds a term.
pub open spec fn holds_term(q: QueryModel) -> bool
    decreases q,
{
    match q {
        QueryModel::Term { term, record } => true,
        QueryModel::Phrase { terms } => terms.len() > 0,
        QueryModel::PhrasePrefix { terms, max_expansions } => terms.len() > 0,
        QueryModel::Boolean { clauses } => any_holds_term(clauses),
        _ => false,
    }
}

pub open spec fn any_holds_term(cs: Seq<(Occur, QueryModel)>) -> bool
    decreases cs,
{
    if cs.len() == 0 {
        false
    } else {
        any_holds_term(cs.drop_last()) || holds_term(cs.last().1)
    }
}

/// The texts of the terms of a query, rising, each once. A query without a
/// term gives one text that says so, and so does a query of which no term
/// has a text.
pub open spec fn extracted(q: QueryModel) -> Seq<Seq<char>> {
    if !holds_term(q) {
        seq!["no_terms_found"@]
    } else if gathered(Seq::empty(), q).len() == 0 {
        seq!["terms_found_but_not_decoded"@]
    } else {
        gathered(Seq::empty(), q)
    }
}

fn less(a: &Vec<char>, b: &Vec<char>) -> (r: bool)
    ensures
        r == text_less(a@, b@),
{
    let mut i: usize = 0;
    proof {
        assert(a@.skip(0) =~= a@);
        assert(b@.skip(0) =~= b@);
    }
    while i < a.len() && i < b.len()
        invariant
            i <= a.len(),
            i <= b.len(),
            text_less(a@, b@) == text_less(a@.skip(i as int), b@.skip(i as int)),
        decreases a.len() - i,
    {
        proof {
            assert(a@.skip(i as int)[0] == a@[i as int]);
            assert(b@.skip(i as int)[0] == b@[i as int]);
            assert(a@.skip(i as int).skip(1) =~= a@.skip(i + 1));
            assert(b@.skip(i as int).skip(1) =~= b@.skip(i + 1));
        }
        if a[i] != b[i] {
            return a[i] < b[i];
        }
        i += 1;
    }
    i < b.len()
}

/// Puts a text among rising texts.
#[verifier::loop_isolation(false)]
fn insert_text(out: &mut Vec<String>, x: String)
    ensures
        texts(final(out)@) == inserted(texts(old(out)@), x@),
{
    let xs = chars_of(x.as_str());
    let ghost all = texts(out@);
    // The texts from `at` on are moved up by one where `x` comes in.
    let mut at: usize = out.len();
    let mut present = false;
    proof {
        assert(all.take(at as int) =~= all);
        assert(inserted(all, x@) + all.skip(at as int) =~= inserted(all, x@));
    }
    while at > 0 && !present
        invariant
            at <= out.len(),
            out@ == old(out)@,
            !present ==> inserted(all, x@) == inserted(all.take(at as int), x@) + all.skip(at as int),
            present ==> inserted(all, x@) == all,
        decreases at + (if present { 0nat } else { 1nat }),
    {
        let last = chars_of(out[at - 1].as_str());
        proof {
            let head = all.take(at as int);
            assert(head.last() == last@);
            assert(head.drop_last() =~= all.take(at - 1));
            assert(all.skip(at - 1) =~= seq![last@] + all.skip(at as int));
        }
        if crate::text::same_chars(&last, &xs) {
            proof {
                assert(all.take(at as int) + all.skip(at as int) =~= all);
            }
            present = true;
        } else if less(&last, &xs) {
            proof {
                assert(all.take(at as int).push(x@) + all.skip(at as int) =~= all.take(at as int)
                    + seq![x@] + all.skip(at as int));
            }
            out.insert(at, x);
            proof {
                assert(texts(out@) =~= all.take(at as int).push(x@) + all.skip(at as int));
            }
            return ;
        } else {
            proof {
                let head = all.take(at as int);
                assert(inserted(head, x@) == inserted(head.drop_last(), x@).push(head.last()));
                assert(inserted(head.drop_last(), x@).push(last@) + all.skip(at as int) =~= inserted(
                    all.take(at - 1),
                    x@,
                ) + all.skip(at - 1));
            }
            at -= 1;
        }
    }
    if !present {
        proof {
            assert(all.take(0) =~= Seq::<Seq<char>>::empty());
            assert(seq![x@] + all.skip(0) =~= seq![x@] + all);
        }
        out.insert(0, x);
        proof {
            assert(texts(out@) =~= seq![x@] + all);
        }
    }
}

fn text_of_value(v: &TypedValue) -> (r: Option<String>)
    ensures
        crate::text::opt_text(r) == term_text(v@),
{
    match v {
        TypedValue::Str(s) => {
            if chars_of(s.as_str()).len() > 0 {
                Some(s.clone())
            } else {
                None
            }
        },
        TypedValue::U64(u) => Some(u64_to_text(*u)),
        TypedValue::I64(i) => Some(i64_to_text(*i)),
        TypedValue::F64(t) => Some(t.clone()),
        TypedValue::Bytes(b) => match text_from_utf8(b) {
            Some(s) => {
                if chars_of(s.as_str()).len() > 0 {
                    Some(s)
                } else {
                    None
                }
            },
            None => None,
        },
        _ => None,
    }
}

fn gather_term(out: &mut Vec<String>, term: &Term)
    ensures
        texts(final(out)@) == with_term(texts(old(out)@), term@),
{
    match text_of_value(&term.value) {
        Some(x) => {
            insert_text(out, x);
        },
        None => {},
    }
}

fn gather_terms(out: &mut Vec<String>, terms: &Vec<Term>)
    ensures
        texts(final(out)@) == with_terms(texts(old(out)@), term_models(terms@)),
{
    let ghost ms = term_models(terms@);
    let ghost start = texts(out@);
    let mut i: usize = 0;
    proof {
        assert(ms.take(0) =~= Seq::<TermModel>::empty());
    }
    while i < terms.len()
        invariant
            i <= terms.len(),
            ms == term_models(terms@),
            start == texts(old(out)@),
            texts(out@) == with_terms(start, ms.take(i as int)),
        decreases terms.len() - i,
    {
        proof {
            assert(ms.take(i + 1).drop_last() =~= ms.take(i as int));
            assert(ms.take(i + 1).last() == terms@[i as int]@);
        }
        gather_term(out, &terms[i]);
        i += 1;
    }
    proof {
        assert(ms.take(ms.len() as int) =~= ms);
    }
}

/// Gathers the texts of the terms of a query, and tells whether the query
/// holds a term.
#[verifier::loop_isolation(false)]
fn gather(out: &mut Vec<String>, query: &Query) -> (found: bool)
    ensures
        texts(final(out)@) == gathered(texts(old(out)@), query@),
        found == holds_term(query@),
    decreases query,
{
    match query {
        Query::Term { term, record } => {
            gather_term(out, term);
            true
        },
        Query::Phrase { terms } => {
            gather_terms(out, terms);
            proof {
                assert(term_models(terms@).len() == terms@.len());
            }
            terms.len() > 0
        },
        Query::PhrasePrefix { terms, max_expansions } => {
            gather_terms(out, terms);
            proof {
                assert(term_models(terms@).len() == terms@.len());
            }
            terms.len() > 0
        },
        Query::Boolean { clauses } => {
            let ghost ms = clause_models(clauses@);
            let ghost start = texts(out@);
            let mut found = false;
            let mut i: usize = 0;
            proof {
                lemma_clause_models(clauses@);
                assert(ms.take(0) =~= Seq::<(Occur, QueryModel)>::empty());
            }
            while i < clauses.len()
                invariant
                    i <= clauses.len(),
                    texts(out@) == gathered_clauses(start, ms.take(i as int)),
                    found == any_holds_term(ms.take(i as int)),
                decreases clauses.len() - i,
            {
                proof {
                    assert(ms.take(i + 1).drop_last() =~= ms.take(i as int));
                    assert(ms.take(i + 1).last() == (clauses@[i as int].0, clauses@[i as int].1@));
                }
                let inner = gather(out, &clauses[i].1);
                found = found || inner;
                i += 1;
            }
            proof {
                assert(ms.take(ms.len() as int) =~= ms);
            }
            found
        },
        _ => false,
    }
}

/// The texts of the terms of a query, rising, each once.
pub fn query_extract_terms(query: &Query) -> (r: Vec<String>)
    ensures
        texts(r@) == extracted(query@),
{
    let mut out: Vec<String> = Vec::new();
    proof {
        assert(texts(out@) =~= Seq::<Seq<char>>::empty());
    }
    let found = gather(&mut out, query);
    if !found {
        let mut r: Vec<String> = Vec::new();
        r.push(copy_text("no_terms_found"));
        proof {
            assert(texts(r@) =~= seq!["no_terms_found"@]);
        }
        r
    } else if out.len() == 0 {
        let mut r: Vec<String> = Vec::new();
        r.push(copy_text("terms_found_but_not_decoded"));
        proof {
            assert(texts(r@) =~= seq!["terms_found_but_not_decoded"@]);
        }
        r
    } else {
        out
    }
}


/// Of two texts that differ, one comes before the other.
pub proof fn lemma_text_order_total(a: Seq<char>, b: Seq<char>)
    ensures
        a == b || text_less(a, b) || text_less(b, a),
    decreases a.len(),
{
    if a.len() > 0 && b.len() > 0 && a[0] == b[0] {
        lemma_text_order_total(a.skip(1), b.skip(1));
        if a.skip(1) == b.skip(1) {
            assert(a =~= seq![a[0]] + a.skip(1));
            assert(b =~= seq![b[0]] + b.skip(1));
        }
    } else if a.len() == 0 && b.len() == 0 {
        assert(a =~= b);
    }
}

/// What comes before a text comes before every text after it.
pub proof fn lemma_text_order_transitive(a: Seq<char>, b: Seq<char>, c: Seq<char>)
    requires
        text_less(a, b),
        text_less(b, c),
    ensures
        text_less(a, c),
    decreases a.len(),
{
    if a.len() > 0 && b.len() > 0 && c.len() > 0 && a[0] == b[0] && b[0] == c[0] {
        lemma_text_order_transitive(a.skip(1), b.skip(1), c.skip(1));
    }
}

/// Every text among `inserted(s, x)` is `x` or a text of `s`.
proof fn lemma_inserted_members(s: Seq<Seq<char>>, x: Seq<char>)
    ensures
        forall|i: int|
            0 <= i < inserted(s, x).len() ==> #[trigger] inserted(s, x)[i] == x || exists|k: int|
                0 <= k < s.len() && s[k] == inserted(s, x)[i],
    decreases s.len(),
{
    let r = inserted(s, x);
    if s.len() == 0 {
    } else if s.last() == x {
        assert forall|i: int| 0 <= i < r.len() implies #[trigger] r[i] == x || exists|k: int|
            0 <= k < s.len() && s[k] == r[i] by {
            assert(s[i] == r[i]);
        }
    } else if text_less(s.last(), x) {
        assert forall|i: int| 0 <= i < r.len() implies #[trigger] r[i] == x || exists|k: int|
            0 <= k < s.len() && s[k] == r[i] by {
            if i < s.len() {
                assert(s[i] == r[i]);
            }
        }
    } else {
        lemma_inserted_members(s.drop_last(), x);
        let inner = inserted(s.drop_last(), x);
        assert forall|i: int| 0 <= i < r.len() implies #[trigger] r[i] == x || exists|k: int|
            0 <= k < s.len() && s[k] == r[i] by {
            if i < inner.len() {
                assert(r[i] == inner[i]);
                if inner[i] != x {
                    let k = choose|k: int| 0 <= k < s.drop_last().len() && s.drop_last()[k] == inner[i];
                    assert(s[k] == r[i]);
                }
            } else {
                assert(s[s.len() - 1] == r[i]);
            }
        }
    }
}

/// Putting a text among rising texts leaves them rising.
pub proof fn lemma_inserted_rising(s: Seq<Seq<char>>, x: Seq<char>)
    requires
        rising(s),
    ensures
        rising(inserted(s, x)),
    decreases s.len(),
{
    let r = inserted(s, x);
    if s.len() == 0 {
    } else if s.last() == x {
    } else if text_less(s.last(), x) {
        assert forall|i: int, j: int| 0 <= i < j < r.len() implies text_less(
            #[trigger] r[i],
            #[trigger] r[j],
        ) by {
            if j < s.len() {
                assert(r[i] == s[i] && r[j] == s[j]);
            } else {
                assert(r[i] == s[i]);
                if i < s.len() - 1 {
                    assert(text_less(s[i], s[s.len() - 1]));
                    lemma_text_order_transitive(s[i], s.last(), x);
                }
            }
        }
    } else {
        let before = s.drop_last();
        assert(rising(before)) by {
            assert forall|i: int, j: int| 0 <= i < j < before.len() implies text_less(
                #[trigger] before[i],
                #[trigger] before[j],
            ) by {
                assert(before[i] == s[i] && before[j] == s[j]);
            }
        }
        lemma_inserted_rising(before, x);
        lemma_inserted_members(before, x);
        lemma_text_order_total(s.last(), x);
        let inner = inserted(before, x);
        assert forall|i: int, j: int| 0 <= i < j < r.len() implies text_less(
            #[trigger] r[i],
            #[trigger] r[j],
        ) by {
            if j < inner.len() {
                assert(r[i] == inner[i] && r[j] == inner[j]);
            } else {
                assert(r[j] == s.last());
                assert(r[i] == inner[i]);
                if inner[i] != x {
                    let k = choose|k: int| 0 <= k < before.len() && before[k] == inner[i];
                    assert(text_less(s[k], s[s.len() - 1]));
                }
            }
        }
    }
}

proof fn lemma_with_terms_rising(acc: Seq<Seq<char>>, ts: Seq<TermModel>)
    requires
        rising(acc),
    ensures
        rising(with_terms(acc, ts)),
    decreases ts.len(),
{
    if ts.len() > 0 {
        lemma_with_terms_rising(acc, ts.drop_last());
        match term_text(ts.last().value) {
            Some(x) => {
                lemma_inserted_rising(with_terms(acc, ts.drop_last()), x);
            },
            None => {},
        }
    }
}

proof fn lemma_gathered_rising(acc: Seq<Seq<char>>, q: QueryModel)
    requires
        rising(acc),
    ensures
        rising(gathered(acc, q)),
    decreases q,
{
    match q {
        QueryModel::Term { term, record } => {
            match term_text(term.value) {
                Some(x) => {
                    lemma_inserted_rising(acc, x);
                },
                None => {},
            }
        },
        QueryModel::Phrase { terms } => {
            lemma_with_terms_rising(acc, terms);
        },
        QueryModel::PhrasePrefix { terms, max_expansions } => {
            lemma_with_terms_rising(acc, terms);
        },
        QueryModel::Boolean { clauses } => {
            lemma_gathered_clauses_rising(acc, clauses);
        },
        _ => {},
    }
}

proof fn lemma_gathered_clauses_rising(acc: Seq<Seq<char>>, cs: Seq<(Occur, QueryModel)>)
    requires
        rising(acc),
    ensures
        rising(gathered_clauses(acc, cs)),
    decreases cs,
{
    if cs.len() > 0 {
        lemma_gathered_clauses_rising(acc, cs.drop_last());
        lemma_gathered_rising(gathered_clauses(acc, cs.drop_last()), cs.last().1);
    }
}

/// The texts that are extracted from a query rise: each is there once, in
/// the order of texts.
pub proof fn law_extracted_rising(q: QueryModel)
    ensures
        rising(extracted(q)),
        extracted(q).len() > 0,
{
    lemma_gathered_rising(Seq::empty(), q);
}

} // verus!
