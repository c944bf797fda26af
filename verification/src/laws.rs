//! Laws that hold of the library as a whole: how coercion and projection,
//! queries and deletions, requests and their compilation go together.
use vstd::prelude::*;
use crate::agg_compile::{compiled, compiled_all};
use crate::agg_result::{
    find_request, has_result, key_value, names_once, projected_buckets, projected_range_buckets,
    projected_result, projected_results, put_each, range_head, AggregationResult, BucketEntry,
    BucketResult, RangeBucketEntry,
};
use crate::aggregation::{AggregationErrorModel, RequestModel};
use crate::coerce::{
    coerce_spec, deep_typed, deep_typed_all, deep_typed_entries, facet_of, facets_of,
    CoercionError,
};
use crate::compile::{
    field_wildcard_query, is_regex_meta, prefix_match, prefix_pattern, term_query, wildcard_regex,
};
use crate::deletion::{deletion_of, field_deletion, DeleteErrorModel, DeleteTargetModel};
use crate::document::{built, tagged, DocumentModel, FieldErrorModel, FieldFault};
use crate::engine::{base64_bytes, base64_text, facet_encoding, facet_path_of, rfc3339_seconds};
use crate::ip::{canonical_ip, ip_of_text};
use crate::project::{
    lemma_position, lemma_position_absent, lemma_position_found, position, projected,
    projected_all, projected_entries, put,
};
use crate::query::{basic_term, must_all, text_terms, QueryModel};
use crate::schema::{has_field, lookup, FieldModel};
use crate::text::{
    all_digits, bool_of_text, decimal_i64, decimal_of, decimal_u64, digit_run,
    is_digit, is_float_literal, is_float_number, lowercase_all, lowercase_of, nanos_of_seconds,
    signed_decimal_of, words,
};
use crate::value::{keys_once, DynModel, FieldType, TypedModel};

verus! {

/// The form in which a value of any shape comes back from a JSON field: an
/// unsigned integer as a signed one where it fits, bytes as base64, lists
/// and objects item by item, anything else as it is.
pub open spec fn deep_normal(v: DynModel) -> DynModel
    decreases v,
{
    match v {
        DynModel::Unsigned(u) => if u <= i64::MAX {
            DynModel::Signed(u as i64)
        } else {
            v
        },
        DynModel::Bytes(b) => DynModel::Str(base64_text(b)),
        DynModel::List(items) => DynModel::List(deep_normal_all(items)),
        DynModel::Object(entries) => DynModel::Object(deep_normal_entries(entries)),
        _ => v,
    }
}

pub open spec fn deep_normal_all(items: Seq<DynModel>) -> Seq<DynModel>
    decreases items,
{
    if items.len() == 0 {
        Seq::empty()
    } else {
        deep_normal_all(items.drop_last()).push(deep_normal(items.last()))
    }
}

pub open spec fn deep_normal_entries(entries: Seq<(Seq<char>, DynModel)>) -> Seq<
    (Seq<char>, DynModel),
>
    decreases entries,
{
    if entries.len() == 0 {
        Seq::empty()
    } else {
        deep_normal_entries(entries.drop_last()).push(
            (entries.last().0, deep_normal(entries.last().1)),
        )
    }
}

/// The path text of each path of a list.
pub open spec fn normal_paths(items: Seq<DynModel>) -> Seq<DynModel>
    decreases items.len(),
{
    if items.len() == 0 {
        Seq::empty()
    } else {
        normal_paths(items.drop_last()).push(
            match items.last() {
                DynModel::Str(p) => DynModel::Str(facet_path_of(facet_encoding(p))),
                other => other,
            },
        )
    }
}

/// The normal form of a value that a field of type `ft` takes: what the
/// value denotes, in the one form in which a field of that type gives its
/// values back. A number is given as the kind of number of the field, a
/// date as nanoseconds since the epoch, a facet as its path text, bytes as
/// base64, an address as its canonical text.
pub open spec fn normal_form(ft: FieldType, v: DynModel) -> Seq<DynModel> {
    match ft {
        FieldType::Text => seq![v],
        FieldType::U64 => match v {
            DynModel::Signed(i) => seq![DynModel::Unsigned(i as u64)],
            DynModel::Str(s) => seq![DynModel::Unsigned(decimal_u64(s)->0)],
            _ => seq![v],
        },
        FieldType::I64 => match v {
            DynModel::Unsigned(u) => seq![DynModel::Signed(u as i64)],
            DynModel::Str(s) => seq![DynModel::Signed(decimal_i64(s)->0)],
            _ => seq![v],
        },
        FieldType::F64 => match v {
            DynModel::Signed(i) => seq![DynModel::Float(signed_decimal_of(i as int))],
            DynModel::Unsigned(u) => seq![DynModel::Float(decimal_of(u as nat))],
            DynModel::Str(t) => seq![DynModel::Float(t)],
            _ => seq![v],
        },
        FieldType::Bool => match v {
            DynModel::Str(s) => seq![DynModel::Bool(bool_of_text(s)->0)],
            _ => seq![v],
        },
        FieldType::Date => match v {
            DynModel::Signed(i) => seq![DynModel::Signed(nanos_of_seconds(i)->0)],
            DynModel::Unsigned(u) => seq![DynModel::Signed(nanos_of_seconds(u as i64)->0)],
            DynModel::Str(s) => seq![
                DynModel::Signed(nanos_of_seconds(rfc3339_seconds(s)->0)->0),
            ],
            _ => seq![v],
        },
        FieldType::Facet => match v {
            DynModel::Str(p) => seq![DynModel::Str(facet_path_of(facet_encoding(p)))],
            DynModel::List(items) => normal_paths(items),
            _ => seq![v],
        },
        FieldType::Bytes => match v {
            DynModel::Bytes(b) => seq![DynModel::Str(base64_text(b))],
            DynModel::Str(s) => seq![DynModel::Str(base64_text(base64_bytes(s)->0))],
            _ => seq![v],
        },
        FieldType::JsonObject => seq![deep_normal(v)],
        FieldType::IpAddr => match v {
            DynModel::Str(s) => seq![DynModel::Str(canonical_ip(ip_of_text(s)->0))],
            _ => seq![v],
        },
    }
}

/// A value that is given in the form in which its field gives values back.
pub open spec fn in_normal_form(ft: FieldType, v: DynModel) -> bool {
    match ft {
        FieldType::Text => v is Str,
        FieldType::U64 => v is Unsigned,
        FieldType::I64 => v is Signed,
        FieldType::F64 => v matches DynModel::Float(t) && is_float_literal(t),
        FieldType::Bool => v is Bool,
        _ => false,
    }
}

proof fn lemma_deep_round_trip(v: DynModel)
    requires
        deep_typed(v) is Ok,
    ensures
        projected(deep_typed(v)->Ok_0) == deep_normal(v),
    decreases v,
{
    match v {
        DynModel::List(items) => {
            lemma_deep_round_trip_all(items);
        },
        DynModel::Object(entries) => {
            lemma_deep_round_trip_entries(entries);
        },
        _ => {},
    }
}

proof fn lemma_deep_round_trip_all(items: Seq<DynModel>)
    requires
        deep_typed_all(items) is Ok,
    ensures
        projected_all(deep_typed_all(items)->Ok_0) == deep_normal_all(items),
    decreases items,
{
    if items.len() > 0 {
        lemma_deep_round_trip_all(items.drop_last());
        lemma_deep_round_trip(items.last());
        let before = deep_typed_all(items.drop_last())->Ok_0;
        let last = deep_typed(items.last())->Ok_0;
        assert(before.push(last).drop_last() =~= before);
    }
}

proof fn lemma_deep_round_trip_entries(entries: Seq<(Seq<char>, DynModel)>)
    requires
        deep_typed_entries(entries) is Ok,
    ensures
        projected_entries(deep_typed_entries(entries)->Ok_0) == deep_normal_entries(entries),
    decreases entries,
{
    if entries.len() > 0 {
        lemma_deep_round_trip_entries(entries.drop_last());
        lemma_deep_round_trip(entries.last().1);
        let before = deep_typed_entries(entries.drop_last())->Ok_0;
        let last = (entries.last().0, deep_typed(entries.last().1)->Ok_0);
        assert(before.push(last).drop_last() =~= before);
    }
}

proof fn lemma_facets_round_trip(items: Seq<DynModel>)
    requires
        facets_of(items) is Ok,
    ensures
        projected_all(facets_of(items)->Ok_0) == normal_paths(items),
    decreases items.len(),
{
    if items.len() > 0 {
        lemma_facets_round_trip(items.drop_last());
        let before = facets_of(items.drop_last())->Ok_0;
        let last = facet_of(items.last())->Ok_0;
        let all = before.push(last);
        assert(all.drop_last() =~= before);
        assert(all.last() == last);
        assert(facets_of(items)->Ok_0 == all);
        assert(projected_all(all) == projected_all(before).push(projected(last)));
    }
}

proof fn lemma_projected_one(v: TypedModel)
    ensures
        projected_all(seq![v]) == seq![projected(v)],
{
    let s = seq![v];
    assert(s.drop_last() =~= Seq::<TypedModel>::empty());
    assert(projected_all(Seq::<TypedModel>::empty()) =~= Seq::<DynModel>::empty());
    assert(s.last() == v);
    assert(projected_all(s) =~= seq![projected(v)]);
}

/// Coercion followed by projection gives the normal form of the value:
/// whatever a field takes comes back as what it denotes, in the form of
/// that field.
pub proof fn law_round_trip(ft: FieldType, v: DynModel)
    requires
        coerce_spec(ft, v) is Ok,
    ensures
        projected_all(coerce_spec(ft, v)->Ok_0) == normal_form(ft, v),
{
    let typed = coerce_spec(ft, v)->Ok_0;
    match ft {
        FieldType::Facet => match v {
            DynModel::List(items) => {
                lemma_facets_round_trip(items);
            },
            _ => {
                lemma_projected_one(typed[0]);
                assert(typed =~= seq![typed[0]]);
            },
        },
        FieldType::JsonObject => {
            lemma_deep_round_trip(v);
            lemma_projected_one(typed[0]);
            assert(typed =~= seq![typed[0]]);
        },
        _ => {
            lemma_projected_one(typed[0]);
            assert(typed =~= seq![typed[0]]);
        },
    }
}

/// A value that is in the form of its field already comes back as it is.
pub proof fn law_round_trip_identity(ft: FieldType, v: DynModel)
    requires
        in_normal_form(ft, v),
    ensures
        coerce_spec(ft, v) is Ok,
        projected_all(coerce_spec(ft, v)->Ok_0) == seq![v],
{
    law_round_trip(ft, v);
}

/// A negative integer is never taken for an unsigned field, and the
/// refusal says so.
pub proof fn law_negative_for_unsigned(i: i64)
    requires
        i < 0,
    ensures
        coerce_spec(FieldType::U64, DynModel::Signed(i)) == Err::<Seq<TypedModel>, CoercionError>(
            CoercionError::NegativeForUnsigned,
        ),
{
}

/// A document with a negative integer for an unsigned field gives that
/// field no value: the entry leaves the note of the refusal, under the
/// name of the field, and the document as it was.
pub proof fn law_negative_entry_is_noted(
    fields: Seq<FieldModel>,
    entries: Seq<(Seq<char>, DynModel)>,
    name: Seq<char>,
    i: i64,
)
    requires
        i < 0,
        lookup(fields, name) is Some,
        fields[lookup(fields, name)->0].field_type == FieldType::U64,
    ensures
        built(fields, entries.push((name, DynModel::Signed(i)))).0 == built(fields, entries).0,
        built(fields, entries.push((name, DynModel::Signed(i)))).1 == built(fields, entries).1.push(
            FieldErrorModel {
                field: name,
                fault: FieldFault::Rejected(CoercionError::NegativeForUnsigned),
            },
        ),
{
    let more = entries.push((name, DynModel::Signed(i)));
    assert(more.drop_last() =~= entries);
}

/// For a tokenized text field that records no positions, a term query and
/// a deletion by the same text of several words are the same query: the
/// conjunction of the lowercase words.
pub proof fn law_same_strategy(fields: Seq<FieldModel>, name: Seq<char>, text: Seq<char>)
    requires
        lookup(fields, name) is Some,
        fields[lookup(fields, name)->0].tokenized(),
        !fields[lookup(fields, name)->0].positions(),
        words(text).len() > 1,
    ensures
        term_query(fields, name, text) == Ok::<QueryModel, crate::compile::QueryErrorModel>(
            must_all(text_terms(lookup(fields, name)->0 as u32, lowercase_all(words(text)))),
        ),
        deletion_of(fields, name, DynModel::Str(text)) == Ok::<DeleteTargetModel, DeleteErrorModel>(
            DeleteTargetModel::Query(
                must_all(text_terms(lookup(fields, name)->0 as u32, lowercase_all(words(text)))),
            ),
        ),
{
    assert(lowercase_all(words(text)).len() == words(text).len());
}

/// For a tokenized text field, a term query and a deletion by the same
/// text of one word are the same query, whatever whitespace stands around
/// the word and whether or not the field records positions: the term of
/// the lowercase word.
pub proof fn law_one_word_same_term(fields: Seq<FieldModel>, name: Seq<char>, text: Seq<char>)
    requires
        lookup(fields, name) is Some,
        fields[lookup(fields, name)->0].tokenized(),
        words(text).len() == 1,
    ensures
        term_query(fields, name, text) == Ok::<QueryModel, crate::compile::QueryErrorModel>(
            basic_term(lookup(fields, name)->0 as u32, TypedModel::Str(lowercase_of(words(text)[0]))),
        ),
        deletion_of(fields, name, DynModel::Str(text)) == Ok::<DeleteTargetModel, DeleteErrorModel>(
            DeleteTargetModel::Query(
                basic_term(
                    lookup(fields, name)->0 as u32,
                    TypedModel::Str(lowercase_of(words(text)[0])),
                ),
            ),
        ),
{
    assert(lowercase_all(words(text)).len() == words(text).len());
    assert(lowercase_all(words(text))[0] == lowercase_of(words(text)[0]));
}

/// What a deletion by a text of several words is made of depends on the
/// positions alone: a phrase of the lowercase words where the field records
/// positions, their conjunction where it does not.
pub proof fn law_deletion_strategy(f: FieldModel, id: u32, text: Seq<char>)
    requires
        f.tokenized(),
        words(text).len() > 1,
    ensures
        f.positions() ==> field_deletion(f, id, DynModel::Str(text)) == Ok::<
            DeleteTargetModel,
            DeleteErrorModel,
        >(
            DeleteTargetModel::Query(
                QueryModel::Phrase { terms: text_terms(id, lowercase_all(words(text))) },
            ),
        ),
        !f.positions() ==> field_deletion(f, id, DynModel::Str(text)) == Ok::<
            DeleteTargetModel,
            DeleteErrorModel,
        >(DeleteTargetModel::Query(must_all(text_terms(id, lowercase_all(words(text)))))),
{
    assert(lowercase_all(words(text)).len() == words(text).len());
}

/// Whether the field of a request node and of every node inside it is a
/// field of the schema.
pub open spec fn fields_known(fields: Seq<FieldModel>, r: RequestModel) -> bool
    decreases r,
{
    has_field(fields, r.field) && all_fields_known(fields, r.sub_aggregations)
}

pub open spec fn all_fields_known(fields: Seq<FieldModel>, rs: Seq<RequestModel>) -> bool
    decreases rs,
{
    if rs.len() == 0 {
        true
    } else {
        all_fields_known(fields, rs.drop_last()) && fields_known(fields, rs.last())
    }
}

/// An error that names a field that the schema does not have.
pub open spec fn names_unknown_field(fields: Seq<FieldModel>, e: AggregationErrorModel) -> bool {
    e matches AggregationErrorModel::UnknownField { name, field } && !has_field(fields, field)
}

/// A request node compiles exactly where every field that it and the nodes
/// inside it name is a field of the schema. Where one is not, nothing is
/// compiled, and the error names a field that the schema does not have.
pub proof fn law_unknown_field(fields: Seq<FieldModel>, r: RequestModel)
    ensures
        compiled(fields, r) is Ok <==> fields_known(fields, r),
        compiled(fields, r) matches Err(e) ==> names_unknown_field(fields, e),
    decreases r,
{
    law_unknown_fields(fields, r.sub_aggregations);
}

/// A request compiles exactly where every field that it names is a field
/// of the schema. Where one is not, nothing is compiled, and the error
/// names a field that the schema does not have.
pub proof fn law_unknown_fields(fields: Seq<FieldModel>, rs: Seq<RequestModel>)
    ensures
        compiled_all(fields, rs) is Ok <==> all_fields_known(fields, rs),
        compiled_all(fields, rs) matches Err(e) ==> names_unknown_field(fields, e),
    decreases rs,
{
    if rs.len() > 0 {
        law_unknown_fields(fields, rs.drop_last());
        law_unknown_field(fields, rs.last());
    }
}

/// Whether an object has an entry under `key`.
pub open spec fn has_key(v: DynModel, key: Seq<char>) -> bool {
    v matches DynModel::Object(es) && position(es, key) is Some
}

proof fn lemma_put_keeps(
    es: Seq<(Seq<char>, DynModel)>,
    key: Seq<char>,
    value: DynModel,
    other: Seq<char>,
)
    requires
        position(es, other) is Some,
    ensures
        position(put(es, key, value), other) is Some,
{
    lemma_position(es, other);
    lemma_position(es, key);
    let after = put(es, key, value);
    let i = position(es, other)->0;
    lemma_position(after, other);
    match position(es, key) {
        Some(j) => {
            if i == j {
                assert(after[i].0 == other);
            } else {
                assert(after[i] == es[i]);
            }
        },
        None => {
            assert(after[i] == es[i]);
        },
    }
}

proof fn lemma_put_each_keeps(
    base: Seq<(Seq<char>, DynModel)>,
    more: Seq<(Seq<char>, DynModel)>,
    other: Seq<char>,
)
    requires
        position(base, other) is Some,
    ensures
        position(put_each(base, more), other) is Some,
    decreases more.len(),
{
    if more.len() > 0 {
        lemma_put_each_keeps(base, more.drop_last(), other);
        lemma_put_keeps(put_each(base, more.drop_last()), more.last().0, more.last().1, other);
    }
}

proof fn lemma_buckets_have_counts(buckets: Seq<BucketEntry>, request: RequestModel)
    ensures
        projected_buckets(buckets, request).len() == buckets.len(),
        forall|i: int|
            0 <= i < buckets.len() ==> has_key(
                #[trigger] projected_buckets(buckets, request)[i],
                "doc_count"@,
            ),
    decreases buckets.len(),
{
    if buckets.len() > 0 {
        lemma_buckets_have_counts(buckets.drop_last(), request);
        let b = buckets.last();
        let head = seq![
            ("key"@, key_value(b.key)),
            ("doc_count"@, DynModel::Unsigned(b.doc_count)),
        ];
        lemma_position(head, "doc_count"@);
        assert(head[1].0 == "doc_count"@);
        lemma_put_each_keeps(
            head,
            projected_results(b.sub_aggregation@, request.sub_aggregations),
            "doc_count"@,
        );
    }
}

/// The projection of the result of a terms aggregation always holds the
/// list of its buckets under `buckets`, one object for each bucket, and
/// each object holds the count of the bucket's documents under
/// `doc_count`.
pub proof fn law_terms_buckets(
    buckets: Vec<BucketEntry>,
    sum_other_doc_count: u64,
    doc_count_error_upper_bound: Option<u64>,
    request: RequestModel,
)
    ensures
        ({
            let p = projected_result(
                AggregationResult::BucketResult(
                    BucketResult::Terms { buckets, sum_other_doc_count, doc_count_error_upper_bound },
                ),
                request,
            );
            &&& p matches DynModel::Object(es)
            &&& es.len() == 3
            &&& es[2].0 == "buckets"@
            &&& es[2].1 matches DynModel::List(items)
            &&& items.len() == buckets@.len()
            &&& forall|i: int| 0 <= i < items.len() ==> has_key(#[trigger] items[i], "doc_count"@)
        }),
{
    lemma_buckets_have_counts(buckets@, request);
}

/// The value under `key` in a list of entries: that of the first entry
/// under the key.
pub open spec fn value_at(es: Seq<(Seq<char>, DynModel)>, key: Seq<char>) -> Option<DynModel> {
    match position(es, key) {
        Some(i) => Some(es[i].1),
        None => None,
    }
}

proof fn lemma_put_value(
    es: Seq<(Seq<char>, DynModel)>,
    key: Seq<char>,
    value: DynModel,
    other: Seq<char>,
)
    ensures
        value_at(put(es, key, value), other) == (if other == key {
            Some(value)
        } else {
            value_at(es, other)
        }),
{
    lemma_position(es, key);
    lemma_position(es, other);
    let after = put(es, key, value);
    match position(es, key) {
        Some(j) => {
            assert forall|k: int| 0 <= k < after.len() implies (#[trigger] after[k]).0 == es[k].0 by {}
            match position(es, other) {
                Some(i) => {
                    assert forall|k: int| 0 <= k < i implies (#[trigger] after[k]).0 != other by {
                        assert(es[k].0 != other);
                    }
                    lemma_position_found(after, other, i);
                },
                None => {
                    assert forall|k: int| 0 <= k < after.len() implies (#[trigger] after[k]).0
                        != other by {
                        assert(es[k].0 != other);
                    }
                    lemma_position_absent(after, other);
                },
            }
        },
        None => {
            match position(es, other) {
                Some(i) => {
                    assert forall|k: int| 0 <= k < i implies (#[trigger] after[k]).0 != other by {
                        assert(es[k].0 != other);
                    }
                    lemma_position_found(after, other, i);
                },
                None => {
                    if other == key {
                        assert forall|k: int| 0 <= k < es.len() implies (#[trigger] after[k]).0
                            != other by {
                            assert(es[k].0 != other);
                        }
                        lemma_position_found(after, other, es.len() as int);
                    } else {
                        assert forall|k: int| 0 <= k < after.len() implies (#[trigger] after[k]).0
                            != other by {
                            if k < es.len() {
                                assert(es[k].0 != other);
                            }
                        }
                        lemma_position_absent(after, other);
                    }
                },
            }
        },
    }
}

proof fn lemma_put_keys_once(es: Seq<(Seq<char>, DynModel)>, key: Seq<char>, value: DynModel)
    requires
        keys_once(es),
    ensures
        keys_once(put(es, key, value)),
{
    lemma_position(es, key);
    let after = put(es, key, value);
    assert forall|i: int, j: int| 0 <= i < j < after.len() implies after[i].0 != after[j].0 by {
        match position(es, key) {
            Some(p) => {
                assert(after[i].0 == es[i].0);
                assert(after[j].0 == es[j].0);
            },
            None => {
                if j < es.len() {
                    assert(after[i] == es[i] && after[j] == es[j]);
                } else {
                    assert(after[i] == es[i]);
                    assert(es[i].0 != key);
                }
            },
        }
    }
}

/// Where no two entries of `more` stand under one key, each key of `more`
/// has its value from `more` once the entries are put into `base`, and
/// every other key has what it had in `base`.
proof fn lemma_put_each_value(
    base: Seq<(Seq<char>, DynModel)>,
    more: Seq<(Seq<char>, DynModel)>,
    key: Seq<char>,
)
    requires
        keys_once(more),
    ensures
        value_at(put_each(base, more), key) == (if position(more, key) is Some {
            value_at(more, key)
        } else {
            value_at(base, key)
        }),
    decreases more.len(),
{
    if more.len() > 0 {
        let before = more.drop_last();
        assert forall|i: int, j: int| 0 <= i < j < before.len() implies before[i].0
            != before[j].0 by {
            assert(before[i] == more[i] && before[j] == more[j]);
        }
        lemma_put_each_value(base, before, key);
        lemma_put_value(put_each(base, before), more.last().0, more.last().1, key);
        lemma_position(before, key);
        if key == more.last().0 {
            if position(before, key) is Some {
                let i = position(before, key)->0;
                assert(before[i] == more[i]);
                assert(more[i].0 != more[more.len() - 1].0);
            }
        } else if position(before, key) is Some {
            assert(before[position(before, key)->0] == more[position(before, key)->0]);
        }
    }
}

proof fn lemma_put_each_keys_once(
    base: Seq<(Seq<char>, DynModel)>,
    more: Seq<(Seq<char>, DynModel)>,
)
    requires
        keys_once(base),
    ensures
        keys_once(put_each(base, more)),
    decreases more.len(),
{
    if more.len() > 0 {
        lemma_put_each_keys_once(base, more.drop_last());
        lemma_put_keys_once(put_each(base, more.drop_last()), more.last().0, more.last().1);
    }
}

/// What the projections of the results inside a bucket hold, where no two
/// results stand under one name: no key twice, a key only for the name of
/// a result, and under the name of each result that a request asked for
/// the projection of that result by that request.
proof fn lemma_projected_results(
    results: Seq<(String, AggregationResult)>,
    requests: Seq<RequestModel>,
)
    requires
        names_once(results),
    ensures
        keys_once(projected_results(results, requests)),
        forall|key: Seq<char>|
            position(projected_results(results, requests), key) is Some ==> has_result(
                results,
                key,
            ),
        forall|i: int|
            0 <= i < results.len() && find_request(requests, (#[trigger] results[i]).0@) is Some
                ==> value_at(projected_results(results, requests), results[i].0@) == Some(
                projected_result(results[i].1, find_request(requests, results[i].0@)->0),
            ),
    decreases results.len(),
{
    if results.len() > 0 {
        let before = results.drop_last();
        let name = results.last().0@;
        assert forall|i: int, j: int| 0 <= i < j < before.len() implies before[i].0@
            != before[j].0@ by {
            assert(before[i] == results[i] && before[j] == results[j]);
        }
        lemma_projected_results(before, requests);
        let pb = projected_results(before, requests);
        let pr = projected_results(results, requests);
        assert forall|key: Seq<char>| position(pr, key) is Some implies has_result(results, key) by {
            if key == name {
                assert(results[results.len() - 1].0@ == key);
            } else {
                match find_request(requests, name) {
                    Some(request) => {
                        lemma_put_value(pb, name, projected_result(results.last().1, request), key);
                    },
                    None => {},
                }
                assert(value_at(pr, key) is Some);
                assert(value_at(pb, key) is Some);
                assert(position(pb, key) is Some);
                assert(has_result(before, key));
                let i = choose|i: int| 0 <= i < before.len() && (#[trigger] before[i]).0@ == key;
                assert(results[i] == before[i]);
            }
        }
        assert forall|i: int|
            0 <= i < results.len() && find_request(
                requests,
                (#[trigger] results[i]).0@,
            ) is Some implies value_at(pr, results[i].0@) == Some(
            projected_result(results[i].1, find_request(requests, results[i].0@)->0),
        ) by {
            match find_request(requests, name) {
                Some(request) => {
                    lemma_put_value(
                        pb,
                        name,
                        projected_result(results.last().1, request),
                        results[i].0@,
                    );
                },
                None => {},
            }
            if i < results.len() - 1 {
                assert(before[i] == results[i]);
                assert(results[i].0@ != results[results.len() - 1].0@);
            }
        }
        match find_request(requests, name) {
            Some(request) => {
                lemma_put_keys_once(pb, name, projected_result(results.last().1, request));
            },
            None => {},
        }
    }
}

proof fn lemma_bucket_at(buckets: Seq<BucketEntry>, request: RequestModel, b: int)
    requires
        0 <= b < buckets.len(),
    ensures
        projected_buckets(buckets, request).len() == buckets.len(),
        projected_buckets(buckets, request)[b] == DynModel::Object(
            put_each(
                seq![
                    ("key"@, key_value(buckets[b].key)),
                    ("doc_count"@, DynModel::Unsigned(buckets[b].doc_count)),
                ],
                projected_results(buckets[b].sub_aggregation@, request.sub_aggregations),
            ),
        ),
    decreases buckets.len(),
{
    lemma_buckets_have_counts(buckets, request);
    lemma_buckets_have_counts(buckets.drop_last(), request);
    if b < buckets.len() - 1 {
        lemma_bucket_at(buckets.drop_last(), request, b);
        assert(buckets.drop_last()[b] == buckets[b]);
    }
}

/// In the object of a bucket, the result of each aggregation inside the
/// bucket stands beside the key and the count, under its own name: where
/// no two results of the bucket stand under one name, the object holds no
/// key twice and, under the name of each result that the request asked
/// for, the projection of that result by the request of that name. The key
/// and the count stand under `key` and `doc_count`, each unless a result
/// has that name.
pub proof fn law_results_beside_key(
    buckets: Seq<BucketEntry>,
    request: RequestModel,
    b: int,
    i: int,
)
    requires
        0 <= b < buckets.len(),
        names_once(buckets[b].sub_aggregation@),
        0 <= i < buckets[b].sub_aggregation@.len(),
        find_request(request.sub_aggregations, buckets[b].sub_aggregation@[i].0@) is Some,
    ensures
        ({
            let results = buckets[b].sub_aggregation@;
            &&& projected_buckets(buckets, request)[b] matches DynModel::Object(es)
            &&& keys_once(es)
            &&& value_at(es, results[i].0@) == Some(
                projected_result(
                    results[i].1,
                    find_request(request.sub_aggregations, results[i].0@)->0,
                ),
            )
            &&& !has_result(results, "key"@) ==> value_at(es, "key"@) == Some(
                key_value(buckets[b].key),
            )
            &&& !has_result(results, "doc_count"@) ==> value_at(es, "doc_count"@) == Some(
                DynModel::Unsigned(buckets[b].doc_count),
            )
        }),
{
    let results = buckets[b].sub_aggregation@;
    let head = seq![
        ("key"@, key_value(buckets[b].key)),
        ("doc_count"@, DynModel::Unsigned(buckets[b].doc_count)),
    ];
    let inside = projected_results(results, request.sub_aggregations);
    lemma_bucket_at(buckets, request, b);
    lemma_projected_results(results, request.sub_aggregations);
    lemma_put_each_value(head, inside, results[i].0@);
    lemma_put_each_value(head, inside, "key"@);
    lemma_put_each_value(head, inside, "doc_count"@);
    reveal_strlit("key");
    reveal_strlit("doc_count");
    assert("key"@.len() == 3);
    assert("doc_count"@.len() == 9);
    lemma_position_found(head, "key"@, 0);
    lemma_position_found(head, "doc_count"@, 1);
    lemma_put_each_keys_once(head, inside);
}

proof fn lemma_range_bucket_at(buckets: Seq<RangeBucketEntry>, request: RequestModel, b: int)
    requires
        0 <= b < buckets.len(),
    ensures
        projected_range_buckets(buckets, request).len() == buckets.len(),
        projected_range_buckets(buckets, request)[b] == DynModel::Object(
            put_each(
                range_head(buckets[b].from, buckets[b].to) + seq![
                    ("key"@, key_value(buckets[b].key)),
                    ("doc_count"@, DynModel::Unsigned(buckets[b].doc_count)),
                ],
                projected_results(buckets[b].sub_aggregation@, request.sub_aggregations),
            ),
        ),
    decreases buckets.len(),
{
    let before = buckets.drop_last();
    if before.len() > 0 {
        lemma_range_bucket_at(before, request, 0);
    } else {
        assert(projected_range_buckets(before, request).len() == 0);
    }
    if b < before.len() {
        lemma_range_bucket_at(before, request, b);
        assert(before[b] == buckets[b]);
    }
}

/// The same of the object of a bucket of a range aggregation, where the
/// bounds of the range stand before the key.
pub proof fn law_results_beside_range_key(
    buckets: Seq<RangeBucketEntry>,
    request: RequestModel,
    b: int,
    i: int,
)
    requires
        0 <= b < buckets.len(),
        names_once(buckets[b].sub_aggregation@),
        0 <= i < buckets[b].sub_aggregation@.len(),
        find_request(request.sub_aggregations, buckets[b].sub_aggregation@[i].0@) is Some,
    ensures
        ({
            let results = buckets[b].sub_aggregation@;
            &&& projected_range_buckets(buckets, request)[b] matches DynModel::Object(es)
            &&& keys_once(es)
            &&& value_at(es, results[i].0@) == Some(
                projected_result(
                    results[i].1,
                    find_request(request.sub_aggregations, results[i].0@)->0,
                ),
            )
            &&& !has_result(results, "key"@) ==> value_at(es, "key"@) == Some(
                key_value(buckets[b].key),
            )
            &&& !has_result(results, "doc_count"@) ==> value_at(es, "doc_count"@) == Some(
                DynModel::Unsigned(buckets[b].doc_count),
            )
        }),
{
    let results = buckets[b].sub_aggregation@;
    let bounds = range_head(buckets[b].from, buckets[b].to);
    let head = bounds + seq![
        ("key"@, key_value(buckets[b].key)),
        ("doc_count"@, DynModel::Unsigned(buckets[b].doc_count)),
    ];
    let inside = projected_results(results, request.sub_aggregations);
    lemma_range_bucket_at(buckets, request, b);
    lemma_projected_results(results, request.sub_aggregations);
    lemma_put_each_value(head, inside, results[i].0@);
    lemma_put_each_value(head, inside, "key"@);
    lemma_put_each_value(head, inside, "doc_count"@);
    reveal_strlit("key");
    reveal_strlit("doc_count");
    reveal_strlit("from");
    reveal_strlit("to");
    assert("key"@.len() == 3);
    assert("doc_count"@.len() == 9);
    assert("from"@.len() == 4);
    assert("to"@.len() == 2);
    assert forall|k: int| 0 <= k < bounds.len() implies (#[trigger] head[k]).0 != "key"@ && head[k].0
        != "doc_count"@ by {
        assert(head[k] == bounds[k]);
    }
    let n = bounds.len() as int;
    assert(head[n].0 == "key"@);
    assert(head[n + 1].0 == "doc_count"@);
    lemma_position_found(head, "key"@, n);
    lemma_position_found(head, "doc_count"@, n + 1);
    assert(keys_once(head)) by {
        assert(bounds.len() <= 2);
        if bounds.len() == 2 {
            assert(bounds[0].0 == "from"@ && bounds[1].0 == "to"@);
        }
        if bounds.len() == 1 {
            assert(bounds[0].0 == "from"@ || bounds[0].0 == "to"@);
        }
    }
    lemma_put_each_keys_once(head, inside);
}

/// The regular expression of a literal: each character that would have a
/// meaning escaped, anything else as it is.
pub open spec fn literal_regex(literal: Seq<char>) -> Seq<char>
    decreases literal.len(),
{
    if literal.len() == 0 {
        Seq::empty()
    } else {
        literal_regex(literal.drop_last()) + if is_regex_meta(literal.last()) {
            seq!['\\', literal.last()]
        } else {
            seq![literal.last()]
        }
    }
}

/// Whether a text holds no wildcard.
pub open spec fn plain(literal: Seq<char>) -> bool {
    forall|i: int| 0 <= i < literal.len() ==> literal[i] != '*' && literal[i] != '?'
}

proof fn lemma_plain_regex(literal: Seq<char>)
    requires
        plain(literal),
    ensures
        wildcard_regex(literal) == literal_regex(literal),
    decreases literal.len(),
{
    if literal.len() > 0 {
        assert(plain(literal.drop_last())) by {
            assert forall|i: int| 0 <= i < literal.drop_last().len() implies literal.drop_last()[i]
                != '*' && literal.drop_last()[i] != '?' by {
                assert(literal.drop_last()[i] == literal[i]);
            }
        }
        lemma_plain_regex(literal.drop_last());
        assert(literal.last() == literal[literal.len() - 1]);
    }
}

/// A wildcard pattern that is a literal followed by `*` always compiles:
/// to the regular expression of the literal followed by `.*`, or, where
/// the engine does not accept that, to a prefix match on the literal.
pub proof fn law_prefix_wildcard(name: Seq<char>, id: u32, pattern: Seq<char>, valid: bool)
    requires
        prefix_pattern(pattern),
    ensures
        valid ==> field_wildcard_query(name, id, pattern, valid) == Ok::<
            QueryModel,
            crate::compile::QueryErrorModel,
        >(
            QueryModel::Regex {
                field: id,
                pattern: literal_regex(pattern.drop_last()) + seq!['.', '*'],
            },
        ),
        !valid ==> field_wildcard_query(name, id, pattern, valid) == Ok::<
            QueryModel,
            crate::compile::QueryErrorModel,
        >(prefix_match(id, pattern.drop_last())),
{
    let literal = pattern.drop_last();
    assert(plain(literal)) by {
        assert forall|i: int| 0 <= i < literal.len() implies literal[i] != '*' && literal[i]
            != '?' by {
            assert(literal[i] == pattern[i]);
        }
    }
    lemma_plain_regex(literal);
}

/// Whether a typed value is of the kind that a field of the given type
/// holds. Arrays and objects stand in a JSON field only, and there nothing
/// else stands at the top.
pub open spec fn of_field_type(ft: FieldType, v: TypedModel) -> bool {
    match ft {
        FieldType::Text => v is Str,
        FieldType::U64 => v is U64,
        FieldType::I64 => v is I64,
        FieldType::F64 => v matches TypedModel::F64(t) && is_float_literal(t),
        FieldType::Bool => v is Bool,
        FieldType::Date => v is Date,
        FieldType::Facet => v is Facet,
        FieldType::Bytes => v is Bytes,
        FieldType::JsonObject => v is Object,
        FieldType::IpAddr => v is IpAddr,
    }
}

proof fn lemma_decimal_digits(n: nat)
    ensures
        decimal_of(n).len() >= 1,
        all_digits(decimal_of(n)),
    decreases n,
{
    if n >= 10 {
        lemma_decimal_digits(n / 10);
        let before = decimal_of(n / 10);
        let all = decimal_of(n);
        assert forall|i: int| 0 <= i < all.len() implies is_digit(#[trigger] all[i]) by {
            if i < before.len() {
                assert(all[i] == before[i]);
            }
        }
    }
}

proof fn lemma_digit_run_all(s: Seq<char>, from: int)
    requires
        0 <= from <= s.len(),
        all_digits(s),
    ensures
        digit_run(s, from) == s.len() - from,
    decreases s.len() - from,
{
    if from < s.len() {
        lemma_digit_run_all(s, from + 1);
    }
}

/// The decimal text of a whole number denotes a number.
pub proof fn lemma_decimal_is_literal(i: int)
    ensures
        is_float_literal(signed_decimal_of(i)),
{
    let magnitude = if i < 0 {
        (-i) as nat
    } else {
        i as nat
    };
    let digits = decimal_of(magnitude);
    lemma_decimal_digits(magnitude);
    lemma_digit_run_all(digits, 0);
    assert(is_float_number(digits));
    if i < 0 {
        let text = signed_decimal_of(i);
        assert(text[0] == '-');
        assert(text.skip(1) =~= digits);
    } else {
        assert(digits[0] != '+' && digits[0] != '-') by {
            assert(is_digit(digits[0]));
        }
    }
}

proof fn lemma_facets_typed(items: Seq<DynModel>)
    requires
        facets_of(items) is Ok,
    ensures
        forall|i: int|
            0 <= i < facets_of(items)->Ok_0.len() ==> (#[trigger] facets_of(items)->Ok_0[i]) is Facet,
    decreases items.len(),
{
    if items.len() > 0 {
        lemma_facets_typed(items.drop_last());
        let before = facets_of(items.drop_last())->Ok_0;
        let all = facets_of(items)->Ok_0;
        assert forall|i: int| 0 <= i < all.len() implies (#[trigger] all[i]) is Facet by {
            if i < before.len() {
                assert(all[i] == before[i]);
            }
        }
    }
}

/// Every value that coercion gives is of the kind that the field holds: a
/// typed value never stands under a field of another type.
pub proof fn law_coerced_values_match(ft: FieldType, v: DynModel)
    requires
        coerce_spec(ft, v) is Ok,
    ensures
        forall|i: int|
            0 <= i < coerce_spec(ft, v)->Ok_0.len() ==> of_field_type(
                ft,
                #[trigger] coerce_spec(ft, v)->Ok_0[i],
            ),
{
    match ft {
        FieldType::F64 => {
            match v {
                DynModel::Signed(i) => {
                    lemma_decimal_is_literal(i as int);
                },
                DynModel::Unsigned(u) => {
                    lemma_decimal_is_literal(u as int);
                },
                _ => {},
            }
        },
        FieldType::Facet => {
            match v {
                DynModel::List(items) => {
                    lemma_facets_typed(items);
                },
                _ => {},
            }
        },
        _ => {},
    }
}

/// Whether every value of a document stands under a field of the schema
/// and is of the kind that the field holds.
pub open spec fn well_typed(fields: Seq<FieldModel>, doc: DocumentModel) -> bool {
    forall|i: int|
        0 <= i < doc.len() ==> 0 <= (#[trigger] doc[i]).0 < fields.len() && of_field_type(
            fields[doc[i].0 as int].field_type,
            doc[i].1,
        )
}

/// A document that is built against a schema is well typed: each of its
/// values stands under a field of the schema, and is of that field's kind.
pub proof fn law_built_document_typed(fields: Seq<FieldModel>, entries: Seq<(Seq<char>, DynModel)>)
    requires
        fields.len() <= u32::MAX,
    ensures
        well_typed(fields, built(fields, entries).0),
    decreases entries.len(),
{
    if entries.len() > 0 {
        law_built_document_typed(fields, entries.drop_last());
        let before = built(fields, entries.drop_last()).0;
        let after = built(fields, entries).0;
        match lookup(fields, entries.last().0) {
            Some(f) => {
                let ft = fields[f].field_type;
                match coerce_spec(ft, entries.last().1) {
                    Ok(vs) => {
                        law_coerced_values_match(ft, entries.last().1);
                        assert(after == before + tagged(f as u32, vs));
                        assert forall|i: int| 0 <= i < after.len() implies 0 <= (
                        #[trigger] after[i]).0 < fields.len() && of_field_type(
                            fields[after[i].0 as int].field_type,
                            after[i].1,
                        ) by {
                            if i < before.len() {
                                assert(after[i] == before[i]);
                            } else {
                                assert(after[i] == (f as u32, vs[i - before.len()]));
                            }
                        }
                    },
                    Err(_) => {},
                }
            },
            None => {},
        }
    }
}

} // verus!
