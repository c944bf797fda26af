//! The result projector: from typed values back to loosely typed ones, for
//! stored fields and search hits.
use vstd::prelude::*;
use crate::document::{Document, DocumentModel};
use crate::engine::{base64_encode, base64_text, facet_display, facet_path_of};
use crate::ip::{canonical_ip, ip_text};
use crate::schema::{FieldModel, Schema};
use crate::text::{copy_text, same_text};
use crate::value::{
    dyn_entry_models, dyn_models, lemma_dyn_entry_models, lemma_dyn_models,
    lemma_typed_entry_models, lemma_typed_models, typed_entry_models, typed_models, DynModel,
    DynValue, TypedModel, TypedValue,
};

verus! {

/// The loosely typed form of a typed value: texts, numbers and truth values
/// as they are, a date as its nanoseconds, a facet as its path, bytes as
/// base64, an address as its canonical text, arrays and objects item by
/// item.
pub open spec fn projected(v: TypedModel) -> DynModel
    decreases v,
{
    match v {
        TypedModel::Null => DynModel::Null,
        TypedModel::Str(s) => DynModel::Str(s),
        TypedModel::U64(u) => DynModel::Unsigned(u),
        TypedModel::I64(i) => DynModel::Signed(i),
        TypedModel::F64(t) => DynModel::Float(t),
        TypedModel::Bool(b) => DynModel::Bool(b),
        TypedModel::Date(n) => DynModel::Signed(n),
        TypedModel::Facet(e) => DynModel::Str(facet_path_of(e)),
        TypedModel::Bytes(b) => DynModel::Str(base64_text(b)),
        TypedModel::IpAddr(bits) => DynModel::Str(canonical_ip(bits)),
        TypedModel::Array(items) => DynModel::List(projected_all(items)),
        TypedModel::Object(entries) => DynModel::Object(projected_entries(entries)),
    }
}

pub open spec fn projected_all(items: Seq<TypedModel>) -> Seq<DynModel>
    decreases items,
{
    if items.len() == 0 {
        Seq::empty()
    } else {
        projected_all(items.drop_last()).push(projected(items.last()))
    }
}

pub open spec fn projected_entries(entries: Seq<(Seq<char>, TypedModel)>) -> Seq<
    (Seq<char>, DynModel),
>
    decreases entries,
{
    if entries.len() == 0 {
        Seq::empty()
    } else {
        projected_entries(entries.drop_last()).push(
            (entries.last().0, projected(entries.last().1)),
        )
    }
}

/// Projects a typed value to its loosely typed form.
#[verifier::loop_isolation(false)]
pub fn project_result(v: &TypedValue) -> (r: DynValue)
    ensures
        r@ == projected(v@),
    decreases v,
{
    match v {
        TypedValue::Null => DynValue::Null,
        TypedValue::Str(s) => DynValue::Str(s.clone()),
        TypedValue::U64(u) => DynValue::Unsigned(*u),
        TypedValue::I64(i) => DynValue::Signed(*i),
        TypedValue::F64(t) => DynValue::Float(t.clone()),
        TypedValue::Bool(b) => DynValue::Bool(*b),
        TypedValue::Date(n) => DynValue::Signed(*n),
        TypedValue::Facet(e) => DynValue::Str(facet_display(e.as_str())),
        TypedValue::Bytes(b) => DynValue::Str(base64_encode(b)),
        TypedValue::IpAddr(bits) => DynValue::Str(ip_text(*bits)),
        TypedValue::Array(items) => {
            let ghost ms = typed_models(items@);
            let mut out: Vec<DynValue> = Vec::new();
            let mut i: usize = 0;
            proof {
                lemma_typed_models(items@);
            }
            while i < items.len()
                invariant
                    i <= items.len(),
                    dyn_models(out@) == projected_all(ms.take(i as int)),
                decreases items.len() - i,
            {
                let p = project_result(&items[i]);
                proof {
                    assert(ms.take(i + 1).drop_last() =~= ms.take(i as int));
                    assert(ms.take(i + 1).last() == items@[i as int]@);
                    assert(out@.push(p).drop_last() =~= out@);
                }
                out.push(p);
                i += 1;
            }
            proof {
                assert(ms.take(ms.len() as int) =~= ms);
            }
            DynValue::List(out)
        },
        TypedValue::Object(entries) => {
            let ghost ms = typed_entry_models(entries@);
            let mut out: Vec<(String, DynValue)> = Vec::new();
            let mut i: usize = 0;
            proof {
                lemma_typed_entry_models(entries@);
            }
            while i < entries.len()
                invariant
                    i <= entries.len(),
                    dyn_entry_models(out@) == projected_entries(ms.take(i as int)),
                decreases entries.len() - i,
            {
                let p = project_result(&entries[i].1);
                let key = entries[i].0.clone();
                proof {
                    assert(ms.take(i + 1).drop_last() =~= ms.take(i as int));
                    assert(ms.take(i + 1).last() == (entries@[i as int].0@, entries@[i as int].1@));
                    assert(out@.push((key, p)).drop_last() =~= out@);
                }
                out.push((key, p));
                i += 1;
            }
            proof {
                assert(ms.take(ms.len() as int) =~= ms);
            }
            DynValue::Object(out)
        },
    }
}

/// Where the first entry under `key` stands.
pub open spec fn position(entries: Seq<(Seq<char>, DynModel)>, key: Seq<char>) -> Option<int>
    decreases entries.len(),
{
    if entries.len() == 0 {
        None
    } else {
        match position(entries.drop_last(), key) {
            Some(i) => Some(i),
            None => if entries.last().0 == key {
                Some(entries.len() - 1)
            } else {
                None
            },
        }
    }
}

/// The entries with `value` under `key`: in the place of the first entry
/// under that key, or at the end where there is none.
pub open spec fn put(entries: Seq<(Seq<char>, DynModel)>, key: Seq<char>, value: DynModel) -> Seq<
    (Seq<char>, DynModel),
> {
    match position(entries, key) {
        Some(i) => entries.update(i, (key, value)),
        None => entries.push((key, value)),
    }
}

pub proof fn lemma_position(entries: Seq<(Seq<char>, DynModel)>, key: Seq<char>)
    ensures
        match position(entries, key) {
            Some(i) => 0 <= i < entries.len() && entries[i].0 == key && forall|k: int|
                0 <= k < i ==> (#[trigger] entries[k]).0 != key,
            None => forall|k: int| 0 <= k < entries.len() ==> (#[trigger] entries[k]).0 != key,
        },
    decreases entries.len(),
{
    if entries.len() > 0 {
        lemma_position(entries.drop_last(), key);
        match position(entries.drop_last(), key) {
            Some(i) => {
                assert(entries.drop_last()[i] == entries[i]);
                assert forall|k: int| 0 <= k < i implies (#[trigger] entries[k]).0 != key by {
                    assert(entries.drop_last()[k] == entries[k]);
                }
            },
            None => {
                assert forall|k: int| 0 <= k < entries.len() - 1 implies (#[trigger] entries[k]).0
                    != key by {
                    assert(entries.drop_last()[k] == entries[k]);
                }
            },
        }
    }
}

/// A position that holds `key`, with none before it, is the position of
/// `key`.
pub proof fn lemma_position_found(entries: Seq<(Seq<char>, DynModel)>, key: Seq<char>, i: int)
    requires
        0 <= i < entries.len(),
        entries[i].0 == key,
        forall|k: int| 0 <= k < i ==> (#[trigger] entries[k]).0 != key,
    ensures
        position(entries, key) == Some(i),
{
    lemma_position(entries, key);
}

/// No entry under `key` means no position.
pub proof fn lemma_position_absent(entries: Seq<(Seq<char>, DynModel)>, key: Seq<char>)
    requires
        forall|k: int| 0 <= k < entries.len() ==> (#[trigger] entries[k]).0 != key,
    ensures
        position(entries, key) is None,
{
    lemma_position(entries, key);
}

/// Puts `value` under `key`, replacing the first entry under that key.
pub fn put_entry(entries: &mut Vec<(String, DynValue)>, key: String, value: DynValue)
    ensures
        dyn_entry_models(final(entries)@) == put(dyn_entry_models(old(entries)@), key@, value@),
{
    let ghost ms = dyn_entry_models(entries@);
    proof {
        lemma_dyn_entry_models(entries@);
    }
    let mut i: usize = 0;
    while i < entries.len()
        invariant
            i <= entries.len(),
            entries@ == old(entries)@,
            ms == dyn_entry_models(entries@),
            ms.len() == entries@.len(),
            forall|k: int|
                0 <= k < entries@.len() ==> #[trigger] ms[k] == (entries@[k].0@, entries@[k].1@),
            forall|k: int| 0 <= k < i ==> (#[trigger] ms[k]).0 != key@,
        decreases entries.len() - i,
    {
        if same_text(entries[i].0.as_str(), key.as_str()) {
            proof {
                lemma_position_found(ms, key@, i as int);
            }
            entries.set(i, (key, value));
            proof {
                lemma_dyn_entry_models(entries@);
                assert(dyn_entry_models(entries@) =~= ms.update(i as int, (key@, value@)));
            }
            return ;
        }
        i += 1;
    }
    proof {
        lemma_position_absent(ms, key@);
        assert(entries@.push((key, value)).drop_last() =~= entries@);
    }
    entries.push((key, value));
}

/// Every value stands under a field of the schema.
pub open spec fn within(fields: Seq<FieldModel>, doc: DocumentModel) -> bool {
    forall|i: int| 0 <= i < doc.len() ==> (#[trigger] doc[i]).0 < fields.len()
}

/// Adds the stored values of a document to the entries of an object.
fn put_document(entries: &mut Vec<(String, DynValue)>, schema: &Schema, doc: &Document)
    requires
        within(schema@, doc@),
    ensures
        dyn_entry_models(final(entries)@) == put_all(
            schema@,
            dyn_entry_models(old(entries)@),
            doc@,
        ),
{
    let mut i: usize = 0;
    let ghost start = dyn_entry_models(entries@);
    proof {
        assert(doc@.take(0) =~= Seq::<(u32, TypedModel)>::empty());
    }
    while i < doc.field_values.len()
        invariant
            i <= doc.field_values.len(),
            within(schema@, doc@),
            start == dyn_entry_models(old(entries)@),
            dyn_entry_models(entries@) == put_all(schema@, start, doc@.take(i as int)),
        decreases doc.field_values.len() - i,
    {
        let field = doc.field_values[i].0;
        proof {
            assert(doc@[i as int] == (field, doc.field_values@[i as int].1@));
            assert(doc@.take(i + 1).drop_last() =~= doc@.take(i as int));
            assert(doc@.take(i + 1).last() == doc@[i as int]);
        }
        let name = schema.get_field_entry(field).name.clone();
        let value = project_result(&doc.field_values[i].1);
        put_entry(entries, name, value);
        i += 1;
    }
    proof {
        assert(doc@.take(doc@.len() as int) =~= doc@);
    }
}

/// The entries `start` with the stored values of a document put in, each
/// under the name of its field.
pub open spec fn put_all(
    fields: Seq<FieldModel>,
    start: Seq<(Seq<char>, DynModel)>,
    doc: DocumentModel,
) -> Seq<(Seq<char>, DynModel)>
    decreases doc.len(),
{
    if doc.len() == 0 {
        start
    } else {
        put(
            put_all(fields, start, doc.drop_last()),
            fields[doc.last().0 as int].name,
            projected(doc.last().1),
        )
    }
}

/// Projects the stored values of a document to an object: each value
/// under the name of its field, a later value of a field in the place of an
/// earlier one.
pub fn project_document(schema: &Schema, doc: &Document) -> (r: DynValue)
    requires
        within(schema@, doc@),
    ensures
        r@ == DynModel::Object(put_all(schema@, Seq::empty(), doc@)),
{
    let mut entries: Vec<(String, DynValue)> = Vec::new();
    put_document(&mut entries, schema, doc);
    DynValue::Object(entries)
}

/// A document that a search found. `score` holds the decimal literal of
/// the score; `document` holds the stored values, where they were asked
/// for.
#[derive(Debug, PartialEq)]
pub struct Hit {
    pub score: String,
    pub doc_id: u32,
    pub document: Option<Document>,
}

pub struct HitModel {
    pub score: Seq<char>,
    pub doc_id: u32,
    pub document: Option<DocumentModel>,
}

impl View for Hit {
    type V = HitModel;

    open spec fn view(&self) -> HitModel {
        HitModel {
            score: self.score@,
            doc_id: self.doc_id,
            document: match self.document {
                Some(d) => Some(d@),
                None => None,
            },
        }
    }
}

pub open spec fn hit_models(hits: Seq<Hit>) -> Seq<HitModel> {
    hits.map_values(|h: Hit| h@)
}

/// The object of a hit: its score and the number of its document, then
/// the stored values.
pub open spec fn hit_object(fields: Seq<FieldModel>, hit: HitModel) -> DynModel {
    let head = seq![
        ("score"@, DynModel::Float(hit.score)),
        ("doc_id"@, DynModel::Unsigned(hit.doc_id as u64)),
    ];
    match hit.document {
        Some(doc) => DynModel::Object(put_all(fields, head, doc)),
        None => DynModel::Object(head),
    }
}

pub open spec fn hit_within(fields: Seq<FieldModel>, hit: HitModel) -> bool {
    match hit.document {
        Some(doc) => within(fields, doc),
        None => true,
    }
}

pub open spec fn hit_objects(fields: Seq<FieldModel>, hits: Seq<HitModel>) -> Seq<DynModel> {
    hits.map_values(|h: HitModel| hit_object(fields, h))
}

/// Projects one hit of a search.
pub fn project_hit(schema: &Schema, hit: &Hit) -> (r: DynValue)
    requires
        hit_within(schema@, hit@),
    ensures
        r@ == hit_object(schema@, hit@),
{
    let mut entries: Vec<(String, DynValue)> = Vec::new();
    entries.push((copy_text("score"), DynValue::Float(hit.score.clone())));
    entries.push((copy_text("doc_id"), DynValue::Unsigned(hit.doc_id as u64)));
    proof {
        lemma_dyn_entry_models(entries@);
        assert(dyn_entry_models(entries@) =~= seq![
            ("score"@, DynModel::Float(hit.score@)),
            ("doc_id"@, DynModel::Unsigned(hit.doc_id as u64)),
        ]);
    }
    match &hit.document {
        Some(doc) => {
            put_document(&mut entries, schema, doc);
        },
        None => {},
    }
    DynValue::Object(entries)
}

/// Projects the hits of a search, in their order, to a list of objects.
pub fn searcher_search_with_query(schema: &Schema, hits: &Vec<Hit>) -> (r: DynValue)
    requires
        forall|i: int| 0 <= i < hits@.len() ==> hit_within(schema@, #[trigger] hits@[i]@),
    ensures
        r@ == DynModel::List(hit_objects(schema@, hit_models(hits@))),
{
    let mut out: Vec<DynValue> = Vec::new();
    let mut i: usize = 0;
    while i < hits.len()
        invariant
            i <= hits.len(),
            forall|k: int| 0 <= k < hits@.len() ==> hit_within(schema@, #[trigger] hits@[k]@),
            out.len() == i,
            forall|k: int| 0 <= k < i ==> (#[trigger] out@[k])@ == hit_object(schema@, hits@[k]@),
        decreases hits.len() - i,
    {
        let o = project_hit(schema, &hits[i]);
        out.push(o);
        i += 1;
    }
    proof {
        lemma_dyn_models(out@);
        assert(dyn_models(out@) =~= hit_objects(schema@, hit_models(hits@)));
    }
    DynValue::List(out)
}

} // verus!
