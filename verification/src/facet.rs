//! Facet collection: which facets are counted, and how the counts are
//! given back.
use vstd::prelude::*;
use crate::compile::{Fault, FaultModel};
use crate::engine::{facet_encode, facet_encoding, rooted};
use crate::project::{put, put_entry};
use crate::text::{chars_of, copy_text, push_text, string_of, texts};
use crate::value::{dyn_entry_models, DynModel, DynValue};

verus! {

/// A facet collector in the making: the field whose facets are counted,
/// and the facets to count below, by their encoded form. It belongs to who
/// makes it until it is handed to a search.
#[derive(Debug, PartialEq)]
pub struct FacetCollectorPlan {
    pub field_name: String,
    pub facets: Vec<String>,
}

/// A collector for the facets of a field, counting below no facet yet.
pub fn facet_collector_for_field(field_name: &str) -> (c: FacetCollectorPlan)
    ensures
        c.field_name@ == field_name@,
        c.facets@.len() == 0,
{
    FacetCollectorPlan { field_name: copy_text(field_name), facets: Vec::new() }
}

/// Adds a facet to count below, once the engine has read its path.
pub fn add_checked_facet(collector: &mut FacetCollectorPlan, facet_path: &str, encoded: Option<String>) -> (r:
    Result<(), Fault>)
    requires
        match encoded {
            Some(e) => rooted(facet_path@) && e@ == facet_encoding(facet_path@),
            None => !rooted(facet_path@),
        },
    ensures
        final(collector).field_name@ == old(collector).field_name@,
        match r {
            Ok(_) => rooted(facet_path@) && texts(final(collector).facets@) == texts(
                old(collector).facets@,
            ).push(facet_encoding(facet_path@)),
            Err(f) => !rooted(facet_path@) && f@ == (FaultModel::FacetPath { path: facet_path@ })
                && final(collector).facets@ == old(collector).facets@,
        },
{
    match encoded {
        Some(e) => {
            proof {
                assert(texts(collector.facets@.push(e)) =~= texts(collector.facets@).push(e@));
            }
            collector.facets.push(e);
            Ok(())
        },
        None => Err(Fault::FacetPath { path: copy_text(facet_path) }),
    }
}

/// Adds a facet to count below. A path that does not start at the root
/// adds nothing.
pub fn facet_collector_add_facet(collector: &mut FacetCollectorPlan, facet_path: &str) -> (r:
    Result<(), Fault>)
    ensures
        final(collector).field_name@ == old(collector).field_name@,
        match r {
            Ok(_) => rooted(facet_path@) && texts(final(collector).facets@) == texts(
                old(collector).facets@,
            ).push(facet_encoding(facet_path@)),
            Err(f) => !rooted(facet_path@) && f@ == (FaultModel::FacetPath { path: facet_path@ })
                && final(collector).facets@ == old(collector).facets@,
        },
{
    add_checked_facet(collector, facet_path, facet_encode(facet_path))
}

/// Whether a path names a facet below the root: it holds a character
/// other than `/`.
pub open spec fn has_segment(path: Seq<char>) -> bool {
    exists|i: int| 0 <= i < path.len() && path[i] != '/'
}

/// The path with `/` at its start.
pub open spec fn from_root(path: Seq<char>) -> Seq<char> {
    if path.len() > 0 && path[0] == '/' {
        path
    } else {
        seq!['/'] + path
    }
}

/// The counts with the count of one facet put under its path from the
/// root; the root itself is not counted.
pub open spec fn with_count(result: Seq<(Seq<char>, DynModel)>, path: Seq<char>, count: u64) -> Seq<
    (Seq<char>, DynModel),
> {
    if has_segment(path) {
        put(result, from_root(path), DynModel::Unsigned(count))
    } else {
        result
    }
}

/// Puts the count of a facet under its path.
pub fn insert_facet_hierarchically(result: &mut Vec<(String, DynValue)>, facet_path: &str, count: u64)
    ensures
        dyn_entry_models(final(result)@) == with_count(
            dyn_entry_models(old(result)@),
            facet_path@,
            count,
        ),
{
    let v = chars_of(facet_path);
    let mut named = false;
    let mut i: usize = 0;
    while i < v.len() && !named
        invariant
            i <= v.len(),
            !named ==> forall|k: int| 0 <= k < i ==> v@[k] == '/',
            named ==> has_segment(v@),
        decreases v.len() - i + (if named { 0nat } else { 1nat }),
    {
        if v[i] != '/' {
            named = true;
        } else {
            i += 1;
        }
    }
    if !named {
        return ;
    }
    let full = if v.len() > 0 && v[0] == '/' {
        copy_text(facet_path)
    } else {
        let mut out: Vec<char> = Vec::new();
        out.push('/');
        push_text(&mut out, facet_path);
        proof {
            assert(out@ =~= seq!['/'] + facet_path@);
        }
        string_of(&out)
    };
    put_entry(result, full, DynValue::Unsigned(count));
}

pub open spec fn count_models(counts: Seq<(String, u64)>) -> Seq<(Seq<char>, u64)> {
    counts.map_values(|c: (String, u64)| (c.0@, c.1))
}

/// The counts of the facets as the entries of an object, each under its
/// path, a later count of a path in the place of an earlier one.
pub open spec fn counted(counts: Seq<(Seq<char>, u64)>) -> Seq<(Seq<char>, DynModel)>
    decreases counts.len(),
{
    if counts.len() == 0 {
        Seq::empty()
    } else {
        with_count(counted(counts.drop_last()), counts.last().0, counts.last().1)
    }
}

/// Projects the counts that a search with a facet collector found.
pub fn facet_search(counts: &Vec<(String, u64)>) -> (r: DynValue)
    ensures
        r@ == DynModel::Object(counted(count_models(counts@))),
{
    let ghost ms = count_models(counts@);
    let mut entries: Vec<(String, DynValue)> = Vec::new();
    let mut i: usize = 0;
    proof {
        assert(ms.take(0) =~= Seq::<(Seq<char>, u64)>::empty());
    }
    while i < counts.len()
        invariant
            i <= counts.len(),
            ms == count_models(counts@),
            dyn_entry_models(entries@) == counted(ms.take(i as int)),
        decreases counts.len() - i,
    {
        proof {
            assert(ms.take(i + 1).drop_last() =~= ms.take(i as int));
            assert(ms.take(i + 1).last() == (counts@[i as int].0@, counts@[i as int].1));
        }
        insert_facet_hierarchically(&mut entries, counts[i].0.as_str(), counts[i].1);
        i += 1;
    }
    proof {
        assert(ms.take(ms.len() as int) =~= ms);
    }
    DynValue::Object(entries)
}

} // verus!
