//! Deletion by value: which term or query removes the documents that a value
//! was indexed under.
use vstd::prelude::*;
use crate::query::{
    basic_term, make_must_all, make_text_terms, must_all, term_models, text_terms, Query,
    QueryModel, Term, TermModel,
};
use crate::schema::{lookup, FieldEntry, FieldModel, IndexRecord, Schema};
use crate::text::{
    bool_of_text, copy_text, decimal_i64, decimal_of, decimal_u64, float_literal, i64_to_text,
    is_float_literal, lowercase_all, lowercase_each, nanos_of_seconds, parse_bool, parse_i64,
    parse_u64, seconds_to_nanos, signed_decimal_of, split_whitespace, texts, u64_to_text, words,
};
use crate::value::{DynModel, DynValue, FieldType, TypedModel, TypedValue};

verus! {

/// What a deletion is carried out with.
#[derive(Debug, PartialEq)]
pub enum DeleteTarget {
    /// One exact term.
    Term(Term),
    /// A query over the terms that the value was split into.
    Query(Query),
}

pub enum DeleteTargetModel {
    Term(TermModel),
    Query(QueryModel),
}

impl View for DeleteTarget {
    type V = DeleteTargetModel;

    open spec fn view(&self) -> DeleteTargetModel {
        match self {
            DeleteTarget::Term(t) => DeleteTargetModel::Term(t@),
            DeleteTarget::Query(q) => DeleteTargetModel::Query(q@),
        }
    }
}

/// Why a deletion target could not be resolved. Each error names the field.
#[derive(Debug, PartialEq)]
pub enum DeleteError {
    /// The schema has no field of this name.
    FieldNotFound { field: String },
    /// The value has a shape that the field's type does not take.
    InvalidValue { field: String, expected: FieldType },
    /// A negative integer for an unsigned field.
    Negative { field: String },
    /// A text that does not denote a value of the field's type.
    Unparsable { field: String, text: String, expected: FieldType },
    /// An integer that the field's type cannot hold.
    OutOfRange { field: String, expected: FieldType },
    /// A text without a word, for a field that records positions.
    NoWords { field: String },
    /// A field whose type has no deletion by value.
    Unsupported { field: String, field_type: FieldType },
}

pub enum DeleteErrorModel {
    FieldNotFound { field: Seq<char> },
    InvalidValue { field: Seq<char>, expected: FieldType },
    Negative { field: Seq<char> },
    Unparsable { field: Seq<char>, text: Seq<char>, expected: FieldType },
    OutOfRange { field: Seq<char>, expected: FieldType },
    NoWords { field: Seq<char> },
    Unsupported { field: Seq<char>, field_type: FieldType },
}

impl View for DeleteError {
    type V = DeleteErrorModel;

    open spec fn view(&self) -> DeleteErrorModel {
        match self {
            DeleteError::FieldNotFound { field } => DeleteErrorModel::FieldNotFound {
                field: field@,
            },
            DeleteError::InvalidValue { field, expected } => DeleteErrorModel::InvalidValue {
                field: field@,
                expected: *expected,
            },
            DeleteError::Negative { field } => DeleteErrorModel::Negative { field: field@ },
            DeleteError::Unparsable { field, text, expected } => DeleteErrorModel::Unparsable {
                field: field@,
                text: text@,
                expected: *expected,
            },
            DeleteError::OutOfRange { field, expected } => DeleteErrorModel::OutOfRange {
                field: field@,
                expected: *expected,
            },
            DeleteError::NoWords { field } => DeleteErrorModel::NoWords { field: field@ },
            DeleteError::Unsupported { field, field_type } => DeleteErrorModel::Unsupported {
                field: field@,
                field_type: *field_type,
            },
        }
    }
}

pub open spec fn outcome_model(r: Result<DeleteTarget, DeleteError>) -> Result<
    DeleteTargetModel,
    DeleteErrorModel,
> {
    match r {
        Ok(t) => Ok(t@),
        Err(e) => Err(e@),
    }
}

pub open spec fn exact(field: u32, value: TypedModel) -> Result<
    DeleteTargetModel,
    DeleteErrorModel,
> {
    Ok(DeleteTargetModel::Term(TermModel { field, value }))
}

/// The target for a text field, from the lowercase words of the value.
///
/// One word is matched as one term. Otherwise a field that records positions
/// gets a phrase, which needs a word, and any other field a conjunction.
pub open spec fn words_target(
    name: Seq<char>,
    id: u32,
    positions: bool,
    low_words: Seq<Seq<char>>,
) -> Result<DeleteTargetModel, DeleteErrorModel> {
    if low_words.len() == 1 {
        Ok(DeleteTargetModel::Query(basic_term(id, TypedModel::Str(low_words[0]))))
    } else if positions {
        if low_words.len() == 0 {
            Err(DeleteErrorModel::NoWords { field: name })
        } else {
            Ok(DeleteTargetModel::Query(QueryModel::Phrase { terms: text_terms(id, low_words) }))
        }
    } else {
        Ok(DeleteTargetModel::Query(must_all(text_terms(id, low_words))))
    }
}

pub open spec fn text_deletion(f: FieldModel, id: u32, value: DynModel) -> Result<
    DeleteTargetModel,
    DeleteErrorModel,
> {
    match value {
        DynModel::Str(s) => if f.tokenized() {
            words_target(f.name, id, f.positions(), lowercase_all(words(s)))
        } else {
            exact(id, TypedModel::Str(s))
        },
        _ => Err(DeleteErrorModel::InvalidValue { field: f.name, expected: FieldType::Text }),
    }
}

pub open spec fn u64_deletion(f: FieldModel, id: u32, value: DynModel) -> Result<
    DeleteTargetModel,
    DeleteErrorModel,
> {
    match value {
        DynModel::Unsigned(u) => exact(id, TypedModel::U64(u)),
        DynModel::Signed(i) => if i >= 0 {
            exact(id, TypedModel::U64(i as u64))
        } else {
            Err(DeleteErrorModel::Negative { field: f.name })
        },
        DynModel::Str(s) => match decimal_u64(s) {
            Some(u) => exact(id, TypedModel::U64(u)),
            None => Err(
                DeleteErrorModel::Unparsable { field: f.name, text: s, expected: FieldType::U64 },
            ),
        },
        _ => Err(DeleteErrorModel::InvalidValue { field: f.name, expected: FieldType::U64 }),
    }
}

pub open spec fn i64_deletion(f: FieldModel, id: u32, value: DynModel) -> Result<
    DeleteTargetModel,
    DeleteErrorModel,
> {
    match value {
        DynModel::Signed(i) => exact(id, TypedModel::I64(i)),
        DynModel::Unsigned(u) => if u <= i64::MAX {
            exact(id, TypedModel::I64(u as i64))
        } else {
            Err(DeleteErrorModel::OutOfRange { field: f.name, expected: FieldType::I64 })
        },
        DynModel::Str(s) => match decimal_i64(s) {
            Some(i) => exact(id, TypedModel::I64(i)),
            None => Err(
                DeleteErrorModel::Unparsable { field: f.name, text: s, expected: FieldType::I64 },
            ),
        },
        _ => Err(DeleteErrorModel::InvalidValue { field: f.name, expected: FieldType::I64 }),
    }
}

pub open spec fn f64_deletion(f: FieldModel, id: u32, value: DynModel) -> Result<
    DeleteTargetModel,
    DeleteErrorModel,
> {
    match value {
        DynModel::Signed(i) => exact(id, TypedModel::F64(signed_decimal_of(i as int))),
        DynModel::Unsigned(u) => exact(id, TypedModel::F64(decimal_of(u as nat))),
        DynModel::Float(s) | DynModel::Str(s) => if is_float_literal(s) {
            exact(id, TypedModel::F64(s))
        } else {
            Err(DeleteErrorModel::Unparsable { field: f.name, text: s, expected: FieldType::F64 })
        },
        _ => Err(DeleteErrorModel::InvalidValue { field: f.name, expected: FieldType::F64 }),
    }
}

pub open spec fn bool_deletion(f: FieldModel, id: u32, value: DynModel) -> Result<
    DeleteTargetModel,
    DeleteErrorModel,
> {
    match value {
        DynModel::Bool(b) => exact(id, TypedModel::Bool(b)),
        DynModel::Str(s) => match bool_of_text(s) {
            Some(b) => exact(id, TypedModel::Bool(b)),
            None => Err(
                DeleteErrorModel::Unparsable { field: f.name, text: s, expected: FieldType::Bool },
            ),
        },
        _ => Err(DeleteErrorModel::InvalidValue { field: f.name, expected: FieldType::Bool }),
    }
}

/// The target for a date field from a timestamp in seconds.
pub open spec fn seconds_target(name: Seq<char>, id: u32, secs: i64) -> Result<
    DeleteTargetModel,
    DeleteErrorModel,
> {
    match nanos_of_seconds(secs) {
        Some(n) => exact(id, TypedModel::Date(n)),
        None => Err(DeleteErrorModel::OutOfRange { field: name, expected: FieldType::Date }),
    }
}

pub open spec fn date_deletion(f: FieldModel, id: u32, value: DynModel) -> Result<
    DeleteTargetModel,
    DeleteErrorModel,
> {
    match value {
        DynModel::Signed(i) => seconds_target(f.name, id, i),
        DynModel::Unsigned(u) => if u <= i64::MAX {
            seconds_target(f.name, id, u as i64)
        } else {
            Err(DeleteErrorModel::OutOfRange { field: f.name, expected: FieldType::Date })
        },
        DynModel::Str(s) => match decimal_i64(s) {
            Some(i) => seconds_target(f.name, id, i),
            None => Err(
                DeleteErrorModel::Unparsable { field: f.name, text: s, expected: FieldType::Date },
            ),
        },
        _ => Err(DeleteErrorModel::InvalidValue { field: f.name, expected: FieldType::Date }),
    }
}

/// The target that deletes by `value` in the field `f`, whose identifier is
/// `id`.
pub open spec fn field_deletion(f: FieldModel, id: u32, value: DynModel) -> Result<
    DeleteTargetModel,
    DeleteErrorModel,
> {
    match f.field_type {
        FieldType::Text => text_deletion(f, id, value),
        FieldType::U64 => u64_deletion(f, id, value),
        FieldType::I64 => i64_deletion(f, id, value),
        FieldType::F64 => f64_deletion(f, id, value),
        FieldType::Bool => bool_deletion(f, id, value),
        FieldType::Date => date_deletion(f, id, value),
        _ => Err(DeleteErrorModel::Unsupported { field: f.name, field_type: f.field_type }),
    }
}

/// The target that deletes by `value` in the field called `name`.
pub open spec fn deletion_of(fields: Seq<FieldModel>, name: Seq<char>, value: DynModel) -> Result<
    DeleteTargetModel,
    DeleteErrorModel,
> {
    match lookup(fields, name) {
        None => Err(DeleteErrorModel::FieldNotFound { field: name }),
        Some(i) => field_deletion(fields[i], i as u32, value),
    }
}

fn term_target(field: u32, value: TypedValue) -> (r: Result<DeleteTarget, DeleteError>)
    ensures
        outcome_model(r) == exact(field, value@),
{
    Ok(DeleteTarget::Term(Term { field, value }))
}

/// The target for a text field from the lowercase words of a value.
pub fn target_for_words(name: &str, id: u32, positions: bool, low_words: Vec<String>) -> (r:
    Result<DeleteTarget, DeleteError>)
    ensures
        outcome_model(r) == words_target(name@, id, positions, texts(low_words@)),
{
    let n = low_words.len();
    let ghost low = texts(low_words@);
    let mut terms = make_text_terms(id, low_words);
    proof {
        assert(term_models(terms@).len() == terms@.len());
        assert(text_terms(id, low).len() == low.len());
    }
    if n == 1 {
        proof {
            assert(term_models(terms@)[0] == terms@[0]@);
            assert(text_terms(id, low)[0] == (TermModel { field: id, value: TypedModel::Str(low[0]) }));
        }
        let term = terms.pop().unwrap();
        Ok(DeleteTarget::Query(Query::Term { term, record: IndexRecord::Basic }))
    } else if positions {
        if n == 0 {
            Err(DeleteError::NoWords { field: copy_text(name) })
        } else {
            Ok(DeleteTarget::Query(Query::Phrase { terms }))
        }
    } else {
        Ok(DeleteTarget::Query(make_must_all(terms)))
    }
}

fn target_for_seconds(name: &str, id: u32, secs: i64) -> (r: Result<DeleteTarget, DeleteError>)
    ensures
        outcome_model(r) == seconds_target(name@, id, secs),
{
    match seconds_to_nanos(secs) {
        Some(n) => term_target(id, TypedValue::Date(n)),
        None => Err(DeleteError::OutOfRange { field: copy_text(name), expected: FieldType::Date }),
    }
}

fn invalid(name: &str, expected: FieldType) -> (r: Result<DeleteTarget, DeleteError>)
    ensures
        outcome_model(r) == Err::<DeleteTargetModel, DeleteErrorModel>(
            DeleteErrorModel::InvalidValue { field: name@, expected },
        ),
{
    Err(DeleteError::InvalidValue { field: copy_text(name), expected })
}

fn unparsable(name: &str, text: &str, expected: FieldType) -> (r: Result<DeleteTarget, DeleteError>)
    ensures
        outcome_model(r) == Err::<DeleteTargetModel, DeleteErrorModel>(
            DeleteErrorModel::Unparsable { field: name@, text: text@, expected },
        ),
{
    Err(DeleteError::Unparsable { field: copy_text(name), text: copy_text(text), expected })
}

/// Resolves what deletes the documents indexed under `value` in one field.
pub fn resolve_field_deletion(entry: &FieldEntry, id: u32, value: &DynValue) -> (r: Result<
    DeleteTarget,
    DeleteError,
>)
    ensures
        outcome_model(r) == field_deletion(entry@, id, value@),
{
    let name = entry.name.as_str();
    match entry.field_type {
        FieldType::Text => match value {
            DynValue::Str(s) => {
                if entry.is_tokenized() {
                    let ws = split_whitespace(s.as_str());
                    let low = lowercase_each(&ws);
                    target_for_words(name, id, entry.has_positions(), low)
                } else {
                    term_target(id, TypedValue::Str(s.clone()))
                }
            },
            _ => invalid(name, FieldType::Text),
        },
        FieldType::U64 => match value {
            DynValue::Unsigned(u) => term_target(id, TypedValue::U64(*u)),
            DynValue::Signed(i) => {
                if *i >= 0 {
                    term_target(id, TypedValue::U64(*i as u64))
                } else {
                    Err(DeleteError::Negative { field: copy_text(name) })
                }
            },
            DynValue::Str(s) => match parse_u64(s.as_str()) {
                Some(u) => term_target(id, TypedValue::U64(u)),
                None => unparsable(name, s.as_str(), FieldType::U64),
            },
            _ => invalid(name, FieldType::U64),
        },
        FieldType::I64 => match value {
            DynValue::Signed(i) => term_target(id, TypedValue::I64(*i)),
            DynValue::Unsigned(u) => {
                if *u <= i64::MAX as u64 {
                    term_target(id, TypedValue::I64(*u as i64))
                } else {
                    Err(
                        DeleteError::OutOfRange {
                            field: copy_text(name),
                            expected: FieldType::I64,
                        },
                    )
                }
            },
            DynValue::Str(s) => match parse_i64(s.as_str()) {
                Some(i) => term_target(id, TypedValue::I64(i)),
                None => unparsable(name, s.as_str(), FieldType::I64),
            },
            _ => invalid(name, FieldType::I64),
        },
        FieldType::F64 => match value {
            DynValue::Signed(i) => term_target(id, TypedValue::F64(i64_to_text(*i))),
            DynValue::Unsigned(u) => term_target(id, TypedValue::F64(u64_to_text(*u))),
            DynValue::Float(s) => {
                if float_literal(s.as_str()) {
                    term_target(id, TypedValue::F64(s.clone()))
                } else {
                    unparsable(name, s.as_str(), FieldType::F64)
                }
            },
            DynValue::Str(s) => {
                if float_literal(s.as_str()) {
                    term_target(id, TypedValue::F64(s.clone()))
                } else {
                    unparsable(name, s.as_str(), FieldType::F64)
                }
            },
            _ => invalid(name, FieldType::F64),
        },
        FieldType::Bool => match value {
            DynValue::Bool(b) => term_target(id, TypedValue::Bool(*b)),
            DynValue::Str(s) => match parse_bool(s.as_str()) {
                Some(b) => term_target(id, TypedValue::Bool(b)),
                None => unparsable(name, s.as_str(), FieldType::Bool),
            },
            _ => invalid(name, FieldType::Bool),
        },
        FieldType::Date => match value {
            DynValue::Signed(i) => target_for_seconds(name, id, *i),
            DynValue::Unsigned(u) => {
                if *u <= i64::MAX as u64 {
                    target_for_seconds(name, id, *u as i64)
                } else {
                    Err(
                        DeleteError::OutOfRange {
                            field: copy_text(name),
                            expected: FieldType::Date,
                        },
                    )
                }
            },
            DynValue::Str(s) => match parse_i64(s.as_str()) {
                Some(i) => target_for_seconds(name, id, i),
                None => unparsable(name, s.as_str(), FieldType::Date),
            },
            _ => invalid(name, FieldType::Date),
        },
        _ => Err(
            DeleteError::Unsupported { field: copy_text(name), field_type: entry.field_type },
        ),
    }
}

/// Resolves what deletes the documents that hold `term_value` in the field
/// `term_field`: one exact term, or for a tokenized text field a query over
/// the lowercase words of the value.
pub fn writer_delete_term(schema: &Schema, term_field: &str, term_value: &DynValue) -> (r: Result<
    DeleteTarget,
    DeleteError,
>)
    ensures
        outcome_model(r) == deletion_of(schema@, term_field@, term_value@),
{
    match schema.get_field(term_field) {
        None => Err(DeleteError::FieldNotFound { field: copy_text(term_field) }),
        Some(id) => resolve_field_deletion(schema.get_field_entry(id), id, term_value),
    }
}

} // verus!
