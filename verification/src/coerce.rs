//! Field coercion: from a loosely typed value to the typed values that a
//! field of a given type takes.
use vstd::prelude::*;
use crate::engine::{
    base64_bytes, base64_decode, facet_encode, facet_encoding, parse_rfc3339, rfc3339_seconds,
    rooted,
};
use crate::ip::{ip_of_text, parse_ip};
use crate::text::{
    bool_of_text, decimal_i64, decimal_of, decimal_u64, float_literal, i64_to_text,
    is_float_literal, nanos_of_seconds, parse_bool, parse_i64, parse_u64, seconds_to_nanos,
    signed_decimal_of, u64_to_text,
};
use crate::value::{
    duplicate_bytes, dyn_entry_models, dyn_models, lemma_dyn_entry_models, lemma_dyn_models, lemma_typed_models,
    typed_entry_models, typed_models, DynModel, DynValue, FieldType, TypedModel, TypedValue,
};

verus! {

/// Why a value was not taken for a field.
#[derive(Clone, Copy, Debug, PartialEq, Eq, Structural)]
pub enum CoercionError {
    /// The value has a shape that the field's type does not take.
    TypeMismatch,
    /// A negative integer for an unsigned field.
    NegativeForUnsigned,
    /// An integer that the field's type cannot hold.
    OutOfRange,
    /// A text that denotes no number of the field's type.
    InvalidNumber,
    /// Neither a truth value nor a word for one.
    InvalidBool,
    /// Neither seconds since the epoch nor an RFC 3339 date and time.
    InvalidDate,
    /// A facet path that does not start at the root.
    InvalidFacet,
    /// A text that is no base64.
    InvalidBase64,
    /// A text that is no IPv4 or IPv6 address.
    InvalidIp,
}

pub type Coerced = Result<Vec<TypedValue>, CoercionError>;

pub type CoercedModel = Result<Seq<TypedModel>, CoercionError>;

pub open spec fn coerced_model(r: Coerced) -> CoercedModel {
    match r {
        Ok(vs) => Ok(typed_models(vs@)),
        Err(e) => Err(e),
    }
}

pub open spec fn typed_result_model(r: Result<TypedValue, CoercionError>) -> Result<
    TypedModel,
    CoercionError,
> {
    match r {
        Ok(v) => Ok(v@),
        Err(e) => Err(e),
    }
}

/// One typed value.
pub open spec fn one(v: TypedModel) -> CoercedModel {
    Ok(seq![v])
}

/// The typed form of a value of any shape, lists and objects converted
/// through and through. An integer is signed where it fits.
pub open spec fn deep_typed(v: DynModel) -> Result<TypedModel, CoercionError>
    decreases v,
{
    match v {
        DynModel::Null => Ok(TypedModel::Null),
        DynModel::Bool(b) => Ok(TypedModel::Bool(b)),
        DynModel::Unsigned(u) => if u <= i64::MAX {
            Ok(TypedModel::I64(u as i64))
        } else {
            Ok(TypedModel::U64(u))
        },
        DynModel::Signed(i) => Ok(TypedModel::I64(i)),
        DynModel::Float(t) => if is_float_literal(t) {
            Ok(TypedModel::F64(t))
        } else {
            Err(CoercionError::InvalidNumber)
        },
        DynModel::Str(s) => Ok(TypedModel::Str(s)),
        DynModel::Bytes(b) => Ok(TypedModel::Bytes(b)),
        DynModel::List(items) => match deep_typed_all(items) {
            Ok(vs) => Ok(TypedModel::Array(vs)),
            Err(e) => Err(e),
        },
        DynModel::Object(entries) => match deep_typed_entries(entries) {
            Ok(es) => Ok(TypedModel::Object(es)),
            Err(e) => Err(e),
        },
    }
}

/// The typed forms of the items, in order; the first item that has none
/// decides the error.
pub open spec fn deep_typed_all(items: Seq<DynModel>) -> Result<Seq<TypedModel>, CoercionError>
    decreases items,
{
    if items.len() == 0 {
        Ok(Seq::empty())
    } else {
        match deep_typed_all(items.drop_last()) {
            Err(e) => Err(e),
            Ok(vs) => match deep_typed(items.last()) {
                Ok(v) => Ok(vs.push(v)),
                Err(e) => Err(e),
            },
        }
    }
}

/// The typed forms of the entries, under the same keys in the same order.
pub open spec fn deep_typed_entries(entries: Seq<(Seq<char>, DynModel)>) -> Result<
    Seq<(Seq<char>, TypedModel)>,
    CoercionError,
>
    decreases entries,
{
    if entries.len() == 0 {
        Ok(Seq::empty())
    } else {
        match deep_typed_entries(entries.drop_last()) {
            Err(e) => Err(e),
            Ok(es) => match deep_typed(entries.last().1) {
                Ok(v) => Ok(es.push((entries.last().0, v))),
                Err(e) => Err(e),
            },
        }
    }
}

/// The facet that one item of a list stands for.
pub open spec fn facet_of(v: DynModel) -> Result<TypedModel, CoercionError> {
    match v {
        DynModel::Str(p) => if rooted(p) {
            Ok(TypedModel::Facet(facet_encoding(p)))
        } else {
            Err(CoercionError::InvalidFacet)
        },
        _ => Err(CoercionError::TypeMismatch),
    }
}

/// The facets of a list of paths, in order; the first item that is no path
/// decides the error.
pub open spec fn facets_of(items: Seq<DynModel>) -> CoercedModel
    decreases items.len(),
{
    if items.len() == 0 {
        Ok(Seq::empty())
    } else {
        match facets_of(items.drop_last()) {
            Err(e) => Err(e),
            Ok(vs) => match facet_of(items.last()) {
                Ok(f) => Ok(vs.push(f)),
                Err(e) => Err(e),
            },
        }
    }
}

/// The date of a timestamp in seconds.
pub open spec fn date_of_seconds(secs: Option<i64>) -> CoercedModel {
    match secs {
        Some(s) => match nanos_of_seconds(s) {
            Some(n) => one(TypedModel::Date(n)),
            None => Err(CoercionError::InvalidDate),
        },
        None => Err(CoercionError::InvalidDate),
    }
}

/// The typed values that a field of type `ft` takes for the value `v`, or
/// why it takes none. Every shape that is not listed for a type is refused.
pub open spec fn coerce_spec(ft: FieldType, v: DynModel) -> CoercedModel {
    match ft {
        FieldType::Text => match v {
            DynModel::Str(s) => one(TypedModel::Str(s)),
            _ => Err(CoercionError::TypeMismatch),
        },
        FieldType::U64 => match v {
            DynModel::Unsigned(u) => one(TypedModel::U64(u)),
            DynModel::Signed(i) => if i >= 0 {
                one(TypedModel::U64(i as u64))
            } else {
                Err(CoercionError::NegativeForUnsigned)
            },
            DynModel::Str(s) => match decimal_u64(s) {
                Some(u) => one(TypedModel::U64(u)),
                None => Err(CoercionError::InvalidNumber),
            },
            _ => Err(CoercionError::TypeMismatch),
        },
        FieldType::I64 => match v {
            DynModel::Signed(i) => one(TypedModel::I64(i)),
            DynModel::Unsigned(u) => if u <= i64::MAX {
                one(TypedModel::I64(u as i64))
            } else {
                Err(CoercionError::OutOfRange)
            },
            DynModel::Str(s) => match decimal_i64(s) {
                Some(i) => one(TypedModel::I64(i)),
                None => Err(CoercionError::InvalidNumber),
            },
            _ => Err(CoercionError::TypeMismatch),
        },
        FieldType::F64 => match v {
            DynModel::Float(t) | DynModel::Str(t) => if is_float_literal(t) {
                one(TypedModel::F64(t))
            } else {
                Err(CoercionError::InvalidNumber)
            },
            DynModel::Signed(i) => one(TypedModel::F64(signed_decimal_of(i as int))),
            DynModel::Unsigned(u) => one(TypedModel::F64(decimal_of(u as nat))),
            _ => Err(CoercionError::TypeMismatch),
        },
        FieldType::Bool => match v {
            DynModel::Bool(b) => one(TypedModel::Bool(b)),
            DynModel::Str(s) => match bool_of_text(s) {
                Some(b) => one(TypedModel::Bool(b)),
                None => Err(CoercionError::InvalidBool),
            },
            _ => Err(CoercionError::InvalidBool),
        },
        FieldType::Date => match v {
            DynModel::Signed(i) => date_of_seconds(Some(i)),
            DynModel::Unsigned(u) => if u <= i64::MAX {
                date_of_seconds(Some(u as i64))
            } else {
                Err(CoercionError::InvalidDate)
            },
            DynModel::Str(s) => date_of_seconds(rfc3339_seconds(s)),
            _ => Err(CoercionError::InvalidDate),
        },
        FieldType::Facet => match v {
            DynModel::Str(p) => match facet_of(v) {
                Ok(f) => one(f),
                Err(e) => Err(e),
            },
            DynModel::List(items) => facets_of(items),
            _ => Err(CoercionError::TypeMismatch),
        },
        FieldType::Bytes => match v {
            DynModel::Bytes(b) => one(TypedModel::Bytes(b)),
            DynModel::Str(s) => match base64_bytes(s) {
                Some(b) => one(TypedModel::Bytes(b)),
                None => Err(CoercionError::InvalidBase64),
            },
            _ => Err(CoercionError::TypeMismatch),
        },
        FieldType::JsonObject => match v {
            DynModel::Object(entries) => match deep_typed(v) {
                Ok(o) => one(o),
                Err(e) => Err(e),
            },
            _ => Err(CoercionError::TypeMismatch),
        },
        FieldType::IpAddr => match v {
            DynModel::Str(s) => match ip_of_text(s) {
                Some(bits) => one(TypedModel::IpAddr(bits)),
                None => Err(CoercionError::InvalidIp),
            },
            _ => Err(CoercionError::TypeMismatch),
        },
    }
}

fn single(v: TypedValue) -> (r: Coerced)
    ensures
        coerced_model(r) == one(v@),
{
    let mut out: Vec<TypedValue> = Vec::new();
    out.push(v);
    proof {
        lemma_typed_models(out@);
        assert(typed_models(out@) =~= seq![v@]);
    }
    Ok(out)
}

/// The facet of a path, given what the engine made of the path.
pub fn facet_value(path: &str, encoded: Option<String>) -> (r: Result<TypedValue, CoercionError>)
    requires
        match encoded {
            Some(e) => rooted(path@) && e@ == facet_encoding(path@),
            None => !rooted(path@),
        },
    ensures
        typed_result_model(r) == facet_of(DynModel::Str(path@)),
{
    match encoded {
        Some(e) => Ok(TypedValue::Facet(e)),
        None => Err(CoercionError::InvalidFacet),
    }
}

/// The date of a timestamp in seconds, where there is one.
pub fn date_value(seconds: Option<i64>) -> (r: Coerced)
    ensures
        coerced_model(r) == date_of_seconds(seconds),
{
    match seconds {
        Some(s) => match seconds_to_nanos(s) {
            Some(n) => single(TypedValue::Date(n)),
            None => Err(CoercionError::InvalidDate),
        },
        None => Err(CoercionError::InvalidDate),
    }
}

/// The bytes value of decoded base64, where the text was base64.
pub fn bytes_value(decoded: Option<Vec<u8>>) -> (r: Coerced)
    ensures
        coerced_model(r) == (match decoded {
            Some(b) => one(TypedModel::Bytes(b@)),
            None => Err(CoercionError::InvalidBase64),
        }),
{
    match decoded {
        Some(b) => single(TypedValue::Bytes(b)),
        None => Err(CoercionError::InvalidBase64),
    }
}

/// Converts a value of any shape to its typed form, through lists and
/// objects.
#[verifier::loop_isolation(false)]
pub fn deep_convert(v: &DynValue) -> (r: Result<TypedValue, CoercionError>)
    ensures
        typed_result_model(r) == deep_typed(v@),
    decreases v,
{
    match v {
        DynValue::Null => Ok(TypedValue::Null),
        DynValue::Bool(b) => Ok(TypedValue::Bool(*b)),
        DynValue::Unsigned(u) => {
            if *u <= i64::MAX as u64 {
                Ok(TypedValue::I64(*u as i64))
            } else {
                Ok(TypedValue::U64(*u))
            }
        },
        DynValue::Signed(i) => Ok(TypedValue::I64(*i)),
        DynValue::Float(t) => {
            if float_literal(t.as_str()) {
                Ok(TypedValue::F64(t.clone()))
            } else {
                Err(CoercionError::InvalidNumber)
            }
        },
        DynValue::Str(s) => Ok(TypedValue::Str(s.clone())),
        DynValue::Bytes(b) => Ok(TypedValue::Bytes(duplicate_bytes(b))),
        DynValue::List(items) => {
            let ghost ms = dyn_models(items@);
            let mut out: Vec<TypedValue> = Vec::new();
            let mut i: usize = 0;
            proof {
                lemma_dyn_models(items@);
            }
            while i < items.len()
                invariant
                    i <= items.len(),
                    ms == dyn_models(items@),
                    ms.len() == items@.len(),
                    deep_typed_all(ms.take(i as int)) == Ok::<Seq<TypedModel>, CoercionError>(
                        typed_models(out@),
                    ),
                decreases items.len() - i,
            {
                proof {
                    assert(ms.take(i + 1).drop_last() =~= ms.take(i as int));
                    assert(ms.take(i + 1).last() == items@[i as int]@);
                }
                match deep_convert(&items[i]) {
                    Ok(t) => {
                        proof {
                            assert(typed_models(out@.push(t)) =~= typed_models(out@).push(t@)) by {
                                assert(out@.push(t).drop_last() =~= out@);
                            }
                        }
                        out.push(t);
                    },
                    Err(e) => {
                        proof {
                            lemma_all_error(ms, i + 1);
                        }
                        return Err(e);
                    },
                }
                i += 1;
            }
            proof {
                assert(ms.take(ms.len() as int) =~= ms);
            }
            Ok(TypedValue::Array(out))
        },
        DynValue::Object(entries) => {
            let ghost ms = dyn_entry_models(entries@);
            let mut out: Vec<(String, TypedValue)> = Vec::new();
            let mut i: usize = 0;
            proof {
                lemma_dyn_entry_models(entries@);
            }
            while i < entries.len()
                invariant
                    i <= entries.len(),
                    ms == dyn_entry_models(entries@),
                    ms.len() == entries@.len(),
                    deep_typed_entries(ms.take(i as int)) == Ok::<
                        Seq<(Seq<char>, TypedModel)>,
                        CoercionError,
                    >(typed_entry_models(out@)),
                decreases entries.len() - i,
            {
                proof {
                    assert(ms.take(i + 1).drop_last() =~= ms.take(i as int));
                    assert(ms.take(i + 1).last() == (entries@[i as int].0@, entries@[i as int].1@));
                }
                match deep_convert(&entries[i].1) {
                    Ok(t) => {
                        let key = entries[i].0.clone();
                        proof {
                            assert(typed_entry_models(out@.push((key, t))) =~= typed_entry_models(
                                out@,
                            ).push((key@, t@))) by {
                                assert(out@.push((key, t)).drop_last() =~= out@);
                            }
                        }
                        out.push((key, t));
                    },
                    Err(e) => {
                        proof {
                            lemma_entries_error(ms, i + 1);
                        }
                        return Err(e);
                    },
                }
                i += 1;
            }
            proof {
                assert(ms.take(ms.len() as int) =~= ms);
            }
            Ok(TypedValue::Object(out))
        },
    }
}

/// An error among the first `n` items is the error of the whole.
pub proof fn lemma_all_error(items: Seq<DynModel>, n: int)
    requires
        0 <= n <= items.len(),
        deep_typed_all(items.take(n)) is Err,
    ensures
        deep_typed_all(items) == deep_typed_all(items.take(n)),
    decreases items.len(),
{
    if n < items.len() {
        assert(items.drop_last().take(n) =~= items.take(n));
        lemma_all_error(items.drop_last(), n);
    } else {
        assert(items.take(n) =~= items);
    }
}

/// An error among the first `n` entries is the error of the whole.
pub proof fn lemma_entries_error(entries: Seq<(Seq<char>, DynModel)>, n: int)
    requires
        0 <= n <= entries.len(),
        deep_typed_entries(entries.take(n)) is Err,
    ensures
        deep_typed_entries(entries) == deep_typed_entries(entries.take(n)),
    decreases entries.len(),
{
    if n < entries.len() {
        assert(entries.drop_last().take(n) =~= entries.take(n));
        lemma_entries_error(entries.drop_last(), n);
    } else {
        assert(entries.take(n) =~= entries);
    }
}

/// An error among the first `n` paths is the error of the whole.
pub proof fn lemma_facets_error(items: Seq<DynModel>, n: int)
    requires
        0 <= n <= items.len(),
        facets_of(items.take(n)) is Err,
    ensures
        facets_of(items) == facets_of(items.take(n)),
    decreases items.len(),
{
    if n < items.len() {
        assert(items.drop_last().take(n) =~= items.take(n));
        lemma_facets_error(items.drop_last(), n);
    } else {
        assert(items.take(n) =~= items);
    }
}

fn one_facet(v: &DynValue) -> (r: Result<TypedValue, CoercionError>)
    ensures
        typed_result_model(r) == facet_of(v@),
{
    match v {
        DynValue::Str(p) => facet_value(p.as_str(), facet_encode(p.as_str())),
        _ => Err(CoercionError::TypeMismatch),
    }
}

fn facet_list(items: &Vec<DynValue>) -> (r: Coerced)
    ensures
        coerced_model(r) == facets_of(dyn_models(items@)),
{
    let ghost ms = dyn_models(items@);
    let mut out: Vec<TypedValue> = Vec::new();
    let mut i: usize = 0;
    proof {
        lemma_dyn_models(items@);
    }
    while i < items.len()
        invariant
            i <= items.len(),
            ms == dyn_models(items@),
            ms.len() == items@.len(),
            forall|k: int| 0 <= k < items@.len() ==> #[trigger] ms[k] == items@[k]@,
            facets_of(ms.take(i as int)) == Ok::<Seq<TypedModel>, CoercionError>(
                typed_models(out@),
            ),
        decreases items.len() - i,
    {
        proof {
            assert(ms.take(i + 1).drop_last() =~= ms.take(i as int));
            assert(ms.take(i + 1).last() == items@[i as int]@);
        }
        match one_facet(&items[i]) {
            Ok(f) => {
                proof {
                    assert(typed_models(out@.push(f)) =~= typed_models(out@).push(f@)) by {
                        assert(out@.push(f).drop_last() =~= out@);
                    }
                }
                out.push(f);
            },
            Err(e) => {
                proof {
                    lemma_facets_error(ms, i + 1);
                }
                return Err(e);
            },
        }
        i += 1;
    }
    proof {
        assert(ms.take(ms.len() as int) =~= ms);
    }
    Ok(out)
}

/// Coerces a loosely typed value into the typed values that a field of the
/// given type takes.
pub fn coerce(field_type: FieldType, value: &DynValue) -> (r: Coerced)
    ensures
        coerced_model(r) == coerce_spec(field_type, value@),
{
    match field_type {
        FieldType::Text => match value {
            DynValue::Str(s) => single(TypedValue::Str(s.clone())),
            _ => Err(CoercionError::TypeMismatch),
        },
        FieldType::U64 => match value {
            DynValue::Unsigned(u) => single(TypedValue::U64(*u)),
            DynValue::Signed(i) => {
                if *i >= 0 {
                    single(TypedValue::U64(*i as u64))
                } else {
                    Err(CoercionError::NegativeForUnsigned)
                }
            },
            DynValue::Str(s) => match parse_u64(s.as_str()) {
                Some(u) => single(TypedValue::U64(u)),
                None => Err(CoercionError::InvalidNumber),
            },
            _ => Err(CoercionError::TypeMismatch),
        },
        FieldType::I64 => match value {
            DynValue::Signed(i) => single(TypedValue::I64(*i)),
            DynValue::Unsigned(u) => {
                if *u <= i64::MAX as u64 {
                    single(TypedValue::I64(*u as i64))
                } else {
                    Err(CoercionError::OutOfRange)
                }
            },
            DynValue::Str(s) => match parse_i64(s.as_str()) {
                Some(i) => single(TypedValue::I64(i)),
                None => Err(CoercionError::InvalidNumber),
            },
            _ => Err(CoercionError::TypeMismatch),
        },
        FieldType::F64 => match value {
            DynValue::Float(t) => {
                if float_literal(t.as_str()) {
                    single(TypedValue::F64(t.clone()))
                } else {
                    Err(CoercionError::InvalidNumber)
                }
            },
            DynValue::Str(t) => {
                if float_literal(t.as_str()) {
                    single(TypedValue::F64(t.clone()))
                } else {
                    Err(CoercionError::InvalidNumber)
                }
            },
            DynValue::Signed(i) => single(TypedValue::F64(i64_to_text(*i))),
            DynValue::Unsigned(u) => single(TypedValue::F64(u64_to_text(*u))),
            _ => Err(CoercionError::TypeMismatch),
        },
        FieldType::Bool => match value {
            DynValue::Bool(b) => single(TypedValue::Bool(*b)),
            DynValue::Str(s) => match parse_bool(s.as_str()) {
                Some(b) => single(TypedValue::Bool(b)),
                None => Err(CoercionError::InvalidBool),
            },
            _ => Err(CoercionError::InvalidBool),
        },
        FieldType::Date => match value {
            DynValue::Signed(i) => date_value(Some(*i)),
            DynValue::Unsigned(u) => {
                if *u <= i64::MAX as u64 {
                    date_value(Some(*u as i64))
                } else {
                    Err(CoercionError::InvalidDate)
                }
            },
            DynValue::Str(s) => date_value(parse_rfc3339(s.as_str())),
            _ => Err(CoercionError::InvalidDate),
        },
        FieldType::Facet => match value {
            DynValue::Str(_) => match one_facet(value) {
                Ok(f) => single(f),
                Err(e) => Err(e),
            },
            DynValue::List(items) => facet_list(items),
            _ => Err(CoercionError::TypeMismatch),
        },
        FieldType::Bytes => match value {
            DynValue::Bytes(b) => single(TypedValue::Bytes(duplicate_bytes(b))),
            DynValue::Str(s) => bytes_value(base64_decode(s.as_str())),
            _ => Err(CoercionError::TypeMismatch),
        },
        FieldType::JsonObject => match value {
            DynValue::Object(_) => match deep_convert(value) {
                Ok(o) => single(o),
                Err(e) => Err(e),
            },
            _ => Err(CoercionError::TypeMismatch),
        },
        FieldType::IpAddr => match value {
            DynValue::Str(s) => match parse_ip(s.as_str()) {
                Some(bits) => single(TypedValue::IpAddr(bits)),
                None => Err(CoercionError::InvalidIp),
            },
            _ => Err(CoercionError::TypeMismatch),
        },
    }
}

/// Whether a field of the given type takes the value.
pub fn validate_field_value(value: &DynValue, field_type: FieldType) -> (r: Result<
    (),
    CoercionError,
>)
    ensures
        match r {
            Ok(_) => coerce_spec(field_type, value@) is Ok,
            Err(e) => coerce_spec(field_type, value@) == Err::<Seq<TypedModel>, CoercionError>(e),
        },
{
    match coerce(field_type, value) {
        Ok(_) => Ok(()),
        Err(e) => Err(e),
    }
}

/// The typed entries of a loosely typed object; a value that is no object
/// has none.
pub open spec fn object_entries(v: DynModel) -> Result<
    Seq<(Seq<char>, TypedModel)>,
    CoercionError,
> {
    match v {
        DynModel::Object(entries) => deep_typed_entries(entries),
        _ => Ok(Seq::empty()),
    }
}

/// Converts the entries of a loosely typed object to typed values, through
/// lists and objects, under the same keys in the same order.
pub fn convert_json_value_to_btreemap(value: &DynValue) -> (r: Result<
    Vec<(String, TypedValue)>,
    CoercionError,
>)
    ensures
        match r {
            Ok(es) => object_entries(value@) == Ok::<Seq<(Seq<char>, TypedModel)>, CoercionError>(
                typed_entry_models(es@),
            ),
            Err(e) => object_entries(value@) == Err::<Seq<(Seq<char>, TypedModel)>, CoercionError>(
                e,
            ),
        },
{
    match value {
        DynValue::Object(_) => match deep_convert(value) {
            Ok(TypedValue::Object(entries)) => Ok(entries),
            Ok(_) => Ok(Vec::new()),
            Err(e) => Err(e),
        },
        _ => Ok(Vec::new()),
    }
}

} // verus!
