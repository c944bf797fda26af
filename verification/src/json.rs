//! JSON text as loosely typed values.
use vstd::prelude::*;
use crate::text::{decimal_i64, decimal_u64, parse_i64, parse_u64};
use crate::value::{
    dyn_entry_models, dyn_models, lemma_dyn_entry_models, lemma_dyn_models, well_formed,
    DynModel, DynValue,
};

verus! {

/// A tree of JSON values of the `serde_json` crate.
#[verifier::external_type_specification]
#[verifier::external_body]
pub struct ExJsonValue(serde_json::Value);

/// What a JSON tree holds, every number as a `Float` of its decimal text.
pub uninterp spec fn json_content(v: serde_json::Value) -> DynModel;

/// What a JSON text holds, if it is one; every number as a `Float` of its
/// decimal text.
pub uninterp spec fn json_value_of(text: Seq<char>) -> Option<DynModel>;

/// `serde_json::from_str` for `serde_json::Value`: reads one JSON value from
/// the whole text and fails on any other text.
#[verifier::external_body]
pub(crate) fn read_json(text: &str) -> (r: Option<serde_json::Value>)
    ensures
        match r {
            Some(v) => json_value_of(text@) == Some(json_content(v)),
            None => json_value_of(text@) is None,
        },
{
    serde_json::from_str::<serde_json::Value>(text).ok()
}

/// One level of a JSON tree: what kind of value it is, with what it holds.
pub enum JsonNode {
    Null,
    Bool(bool),
    /// A number, by its decimal text.
    Number(String),
    Str(String),
    Array(Vec<serde_json::Value>),
    Object(Vec<(String, serde_json::Value)>),
}

/// What the items of a JSON array hold, in order.
pub open spec fn item_contents(items: Seq<serde_json::Value>) -> Seq<DynModel> {
    items.map_values(|v: serde_json::Value| json_content(v))
}

/// What the entries of a JSON object hold, in order.
pub open spec fn entry_contents(entries: Seq<(String, serde_json::Value)>) -> Seq<
    (Seq<char>, DynModel),
> {
    entries.map_values(|e: (String, serde_json::Value)| (e.0@, json_content(e.1)))
}

/// What one level of a JSON tree holds.
pub open spec fn node_content(n: JsonNode) -> DynModel {
    match n {
        JsonNode::Null => DynModel::Null,
        JsonNode::Bool(b) => DynModel::Bool(b),
        JsonNode::Number(t) => DynModel::Float(t@),
        JsonNode::Str(s) => DynModel::Str(s@),
        JsonNode::Array(items) => DynModel::List(item_contents(items@)),
        JsonNode::Object(entries) => DynModel::Object(entry_contents(entries@)),
    }
}

/// Whether no two entries of a JSON object stand under one key.
pub open spec fn entries_once(entries: Seq<(String, serde_json::Value)>) -> bool {
    forall|i: int, j: int| 0 <= i < j < entries.len() ==> entries[i].0@ != entries[j].0@
}

/// Takes the top of a `serde_json::Value` apart, variant by variant: a
/// `Number` by its `Display`, an `Array` and an `Object` into their items,
/// in their order. The entries of an `Object` come from a map, which holds
/// each key once.
#[verifier::external_body]
pub(crate) fn take_json(v: serde_json::Value) -> (n: JsonNode)
    ensures
        node_content(n) == json_content(v),
        n matches JsonNode::Object(entries) ==> entries_once(entries@),
{
    match v {
        serde_json::Value::Null => JsonNode::Null,
        serde_json::Value::Bool(b) => JsonNode::Bool(b),
        serde_json::Value::Number(n) => JsonNode::Number(n.to_string()),
        serde_json::Value::String(s) => JsonNode::Str(s),
        serde_json::Value::Array(a) => JsonNode::Array(a),
        serde_json::Value::Object(o) => JsonNode::Object(o.into_iter().collect()),
    }
}

/// The loosely typed value of a JSON tree, every number as a `Float` of its
/// decimal text.
#[verifier::loop_isolation(false)]
pub fn from_json(v: serde_json::Value) -> (r: DynValue)
    ensures
        r@ == json_content(v),
        well_formed(r@),
    decreases json_content(v),
{
    match take_json(v) {
        JsonNode::Null => DynValue::Null,
        JsonNode::Bool(b) => DynValue::Bool(b),
        JsonNode::Number(t) => DynValue::Float(t),
        JsonNode::Str(s) => DynValue::Str(s),
        JsonNode::Array(items) => {
            let ghost contents = item_contents(items@);
            let mut out: Vec<DynValue> = Vec::new();
            proof {
                assert(node_content(JsonNode::Array(items)) == DynModel::List(contents));
                assert(json_content(v) == DynModel::List(contents));
            }
            for item in it: items
                invariant
                    it.seq() == items@,
                    out.len() == it.index(),
                    forall|k: int| 0 <= k < it.index() ==> (#[trigger] out@[k])@ == contents[k],
                    forall|k: int| 0 <= k < it.index() ==> well_formed(#[trigger] contents[k]),
            {
                proof {
                    let i = it.index() as int;
                    assert(item == items@[i]);
                    assert(contents[i] == json_content(item));
                    let whole = json_content(v);
                    assert(whole->List_0 == contents);
                    assert(decreases_to!(whole => whole->List_0));
                    assert(decreases_to!(contents => contents[i]));
                }
                let d = from_json(item);
                out.push(d);
            }
            proof {
                lemma_dyn_models(out@);
                assert(dyn_models(out@) =~= contents);
            }
            DynValue::List(out)
        },
        JsonNode::Object(entries) => {
            let ghost contents = entry_contents(entries@);
            let mut out: Vec<(String, DynValue)> = Vec::new();
            proof {
                assert(node_content(JsonNode::Object(entries)) == DynModel::Object(contents));
                assert(json_content(v) == DynModel::Object(contents));
            }
            for entry in it: entries
                invariant
                    it.seq() == entries@,
                    out.len() == it.index(),
                    forall|k: int|
                        0 <= k < it.index() ==> ((#[trigger] out@[k]).0@, out@[k].1@) == contents[k],
                    forall|k: int| 0 <= k < it.index() ==> well_formed((#[trigger] contents[k]).1),
            {
                proof {
                    let i = it.index() as int;
                    assert(entry == entries@[i]);
                    assert(contents[i] == (entry.0@, json_content(entry.1)));
                    let whole = json_content(v);
                    assert(whole->Object_0 == contents);
                    assert(decreases_to!(whole => whole->Object_0));
                    assert(decreases_to!(contents => contents[i]));
                    assert(decreases_to!(contents[i] => contents[i].1));
                }
                let d = from_json(entry.1);
                out.push((entry.0, d));
            }
            proof {
                lemma_dyn_entry_models(out@);
                assert(dyn_entry_models(out@) =~= contents);
                assert forall|i: int, j: int| 0 <= i < j < contents.len() implies contents[i].0
                    != contents[j].0 by {
                    assert(entries@[i].0@ != entries@[j].0@);
                }
            }
            DynValue::Object(out)
        },
    }
}

/// A number by its kind: the text of an unsigned integer as `Unsigned`, of
/// a negative integer as `Signed`, any other as it is.
pub open spec fn number_of(t: Seq<char>) -> DynModel {
    match decimal_u64(t) {
        Some(u) => DynModel::Unsigned(u),
        None => match decimal_i64(t) {
            Some(i) => DynModel::Signed(i),
            None => DynModel::Float(t),
        },
    }
}

/// A value with every `Float` that holds the text of an integer turned
/// into that integer.
pub open spec fn normalized(v: DynModel) -> DynModel
    decreases v,
{
    match v {
        DynModel::Float(t) => number_of(t),
        DynModel::List(items) => DynModel::List(normalized_all(items)),
        DynModel::Object(entries) => DynModel::Object(normalized_entries(entries)),
        _ => v,
    }
}

pub open spec fn normalized_all(items: Seq<DynModel>) -> Seq<DynModel>
    decreases items,
{
    if items.len() == 0 {
        Seq::empty()
    } else {
        normalized_all(items.drop_last()).push(normalized(items.last()))
    }
}

pub open spec fn normalized_entries(entries: Seq<(Seq<char>, DynModel)>) -> Seq<
    (Seq<char>, DynModel),
>
    decreases entries,
{
    if entries.len() == 0 {
        Seq::empty()
    } else {
        normalized_entries(entries.drop_last()).push(
            (entries.last().0, normalized(entries.last().1)),
        )
    }
}

proof fn lemma_normalized_all(items: Seq<DynModel>)
    ensures
        normalized_all(items).len() == items.len(),
        forall|i: int|
            0 <= i < items.len() ==> #[trigger] normalized_all(items)[i] == normalized(items[i]),
    decreases items.len(),
{
    if items.len() > 0 {
        lemma_normalized_all(items.drop_last());
        assert forall|i: int| 0 <= i < items.len() implies #[trigger] normalized_all(items)[i]
            == normalized(items[i]) by {
            if i < items.len() - 1 {
                assert(items.drop_last()[i] == items[i]);
            }
        }
    }
}

proof fn lemma_normalized_entries(entries: Seq<(Seq<char>, DynModel)>)
    ensures
        normalized_entries(entries).len() == entries.len(),
        forall|i: int|
            0 <= i < entries.len() ==> #[trigger] normalized_entries(entries)[i] == (
                entries[i].0,
                normalized(entries[i].1),
            ),
    decreases entries.len(),
{
    if entries.len() > 0 {
        lemma_normalized_entries(entries.drop_last());
        assert forall|i: int| 0 <= i < entries.len() implies #[trigger] normalized_entries(
            entries,
        )[i] == (entries[i].0, normalized(entries[i].1)) by {
            if i < entries.len() - 1 {
                assert(entries.drop_last()[i] == entries[i]);
            }
        }
    }
}

/// Turning numbers into integers leaves every key where it is: a well
/// formed value stays well formed.
pub proof fn lemma_normalized_well_formed(v: DynModel)
    requires
        well_formed(v),
    ensures
        well_formed(normalized(v)),
    decreases v,
{
    match v {
        DynModel::List(items) => {
            lemma_normalized_all(items);
            assert forall|i: int| 0 <= i < items.len() implies well_formed(
                #[trigger] normalized_all(items)[i],
            ) by {
                assert(well_formed(items[i]));
                lemma_normalized_well_formed(items[i]);
            }
        },
        DynModel::Object(entries) => {
            lemma_normalized_entries(entries);
            let after = normalized_entries(entries);
            assert forall|i: int| 0 <= i < entries.len() implies well_formed(
                (#[trigger] after[i]).1,
            ) by {
                assert(well_formed(entries[i].1));
                lemma_normalized_well_formed(entries[i].1);
            }
            assert forall|i: int, j: int| 0 <= i < j < after.len() implies after[i].0
                != after[j].0 by {
                assert(entries[i].0 != entries[j].0);
            }
        },
        _ => {},
    }
}

/// Turns every number given as text into an integer where it is one.
#[verifier::loop_isolation(false)]
pub fn normalize(v: DynValue) -> (r: DynValue)
    ensures
        r@ == normalized(v@),
        well_formed(v@) ==> well_formed(r@),
    decreases v,
{
    proof {
        if well_formed(v@) {
            lemma_normalized_well_formed(v@);
        }
    }
    match v {
        DynValue::Float(t) => match parse_u64(t.as_str()) {
            Some(u) => DynValue::Unsigned(u),
            None => match parse_i64(t.as_str()) {
                Some(i) => DynValue::Signed(i),
                None => DynValue::Float(t),
            },
        },
        DynValue::List(items) => {
            let ghost ms = dyn_models(items@);
            let mut out: Vec<DynValue> = Vec::new();
            proof {
                lemma_dyn_models(items@);
                assert(ms.take(0) =~= Seq::<DynModel>::empty());
            }
            for item in it: items
                invariant
                    it.seq() == items@,
                    dyn_models(out@) == normalized_all(ms.take(it.index() as int)),
            {
                proof {
                    let i = it.index() as int;
                    assert(ms.take(i + 1).drop_last() =~= ms.take(i));
                    assert(ms.take(i + 1).last() == item@);
                    assert(decreases_to!(items => item)) by {
                        assert(item == items@[i]);
                    }
                }
                let n = normalize(item);
                proof {
                    assert(out@.push(n).drop_last() =~= out@);
                }
                out.push(n);
            }
            proof {
                assert(ms.take(ms.len() as int) =~= ms);
            }
            DynValue::List(out)
        },
        DynValue::Object(entries) => {
            let ghost ms = dyn_entry_models(entries@);
            let mut out: Vec<(String, DynValue)> = Vec::new();
            proof {
                lemma_dyn_entry_models(entries@);
                assert(ms.take(0) =~= Seq::<(Seq<char>, DynModel)>::empty());
            }
            for entry in it: entries
                invariant
                    it.seq() == entries@,
                    dyn_entry_models(out@) == normalized_entries(ms.take(it.index() as int)),
            {
                proof {
                    let i = it.index() as int;
                    assert(ms.take(i + 1).drop_last() =~= ms.take(i));
                    assert(ms.take(i + 1).last() == (entry.0@, entry.1@));
                    assert(decreases_to!(entries => entry.1)) by {
                        assert(entry == entries@[i]);
                    }
                }
                let n = normalize(entry.1);
                proof {
                    assert(out@.push((entry.0, n)).drop_last() =~= out@);
                }
                out.push((entry.0, n));
            }
            proof {
                assert(ms.take(ms.len() as int) =~= ms);
            }
            DynValue::Object(out)
        },
        other => other,
    }
}

/// The loosely typed value of a JSON text.
pub open spec fn json_of_text(text: Seq<char>) -> Option<DynModel> {
    match json_value_of(text) {
        Some(v) => Some(normalized(v)),
        None => None,
    }
}

/// Reads a JSON text into a loosely typed value, which is well formed: an
/// object of the text holds each key once.
pub fn parse_json(text: &str) -> (r: Option<DynValue>)
    ensures
        match r {
            Some(v) => json_of_text(text@) == Some(v@) && well_formed(v@),
            None => json_of_text(text@) is None,
        },
{
    match read_json(text) {
        Some(v) => Some(normalize(from_json(v))),
        None => None,
    }
}

} // verus!
