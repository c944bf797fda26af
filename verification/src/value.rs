//! The value model: loosely typed input values and the typed values of the
//! index engine.
use vstd::prelude::*;

verus! {

/// The type that a schema declares for a field.
#[derive(Clone, Copy, Debug, PartialEq, Eq, Structural)]
pub enum FieldType {
    Text,
    U64,
    I64,
    F64,
    Bool,
    Date,
    Facet,
    Bytes,
    JsonObject,
    IpAddr,
}

/// A loosely typed value, as a caller hands it in or gets it back.
///
/// A `Float` holds the decimal literal of a double-precision number.
#[derive(Debug, PartialEq)]
pub enum DynValue {
    Null,
    Bool(bool),
    Unsigned(u64),
    Signed(i64),
    Float(String),
    Str(String),
    Bytes(Vec<u8>),
    List(Vec<DynValue>),
    Object(Vec<(String, DynValue)>),
}

/// The mathematical content of a [`DynValue`].
pub enum DynModel {
    Null,
    Bool(bool),
    Unsigned(u64),
    Signed(i64),
    Float(Seq<char>),
    Str(Seq<char>),
    Bytes(Seq<u8>),
    List(Seq<DynModel>),
    Object(Seq<(Seq<char>, DynModel)>),
}

/// Whether no two entries stand under one key.
pub open spec fn keys_once(es: Seq<(Seq<char>, DynModel)>) -> bool {
    forall|i: int, j: int| 0 <= i < j < es.len() ==> es[i].0 != es[j].0
}

/// Whether a value is well formed: no object in it, at any depth, holds two
/// entries under one key. Every function takes values that are not; where
/// a key stands twice, the first entry under it is the one that is found.
pub open spec fn well_formed(v: DynModel) -> bool
    decreases v,
{
    match v {
        DynModel::List(items) => forall|i: int|
            0 <= i < items.len() ==> well_formed(#[trigger] items[i]),
        DynModel::Object(es) => keys_once(es) && forall|i: int|
            0 <= i < es.len() ==> well_formed((#[trigger] es[i]).1),
        _ => true,
    }
}

/// The content of a loosely typed value.
pub open spec fn dyn_model(v: DynValue) -> DynModel
    decreases v,
{
    match v {
        DynValue::Null => DynModel::Null,
        DynValue::Bool(b) => DynModel::Bool(b),
        DynValue::Unsigned(u) => DynModel::Unsigned(u),
        DynValue::Signed(i) => DynModel::Signed(i),
        DynValue::Float(s) => DynModel::Float(s@),
        DynValue::Str(s) => DynModel::Str(s@),
        DynValue::Bytes(b) => DynModel::Bytes(b@),
        DynValue::List(items) => DynModel::List(dyn_models(items@)),
        DynValue::Object(entries) => DynModel::Object(dyn_entry_models(entries@)),
    }
}

/// The contents of a sequence of loosely typed values.
pub open spec fn dyn_models(vs: Seq<DynValue>) -> Seq<DynModel>
    decreases vs,
{
    if vs.len() == 0 {
        Seq::empty()
    } else {
        dyn_models(vs.drop_last()).push(dyn_model(vs.last()))
    }
}

/// The contents of the entries of a loosely typed object.
pub open spec fn dyn_entry_models(es: Seq<(String, DynValue)>) -> Seq<(Seq<char>, DynModel)>
    decreases es,
{
    if es.len() == 0 {
        Seq::empty()
    } else {
        dyn_entry_models(es.drop_last()).push((es.last().0@, dyn_model(es.last().1)))
    }
}

impl View for DynValue {
    type V = DynModel;

    open spec fn view(&self) -> DynModel {
        dyn_model(*self)
    }
}

/// A value in the typed representation of the index engine.
///
/// `F64` holds the decimal literal of the number, `Date` nanoseconds since the
/// epoch, `Facet` the encoded path (its segments, unescaped, separated by the
/// null character), `IpAddr` the 128 bits of an IPv6 address.
#[derive(Debug, PartialEq)]
pub enum TypedValue {
    Null,
    Str(String),
    U64(u64),
    I64(i64),
    F64(String),
    Bool(bool),
    Date(i64),
    Facet(String),
    Bytes(Vec<u8>),
    IpAddr(u128),
    Array(Vec<TypedValue>),
    Object(Vec<(String, TypedValue)>),
}

/// The mathematical content of a [`TypedValue`].
pub enum TypedModel {
    Null,
    Str(Seq<char>),
    U64(u64),
    I64(i64),
    F64(Seq<char>),
    Bool(bool),
    Date(i64),
    Facet(Seq<char>),
    Bytes(Seq<u8>),
    IpAddr(u128),
    Array(Seq<TypedModel>),
    Object(Seq<(Seq<char>, TypedModel)>),
}

/// The content of a typed value.
pub open spec fn typed_model(v: TypedValue) -> TypedModel
    decreases v,
{
    match v {
        TypedValue::Null => TypedModel::Null,
        TypedValue::Str(s) => TypedModel::Str(s@),
        TypedValue::U64(u) => TypedModel::U64(u),
        TypedValue::I64(i) => TypedModel::I64(i),
        TypedValue::F64(s) => TypedModel::F64(s@),
        TypedValue::Bool(b) => TypedModel::Bool(b),
        TypedValue::Date(n) => TypedModel::Date(n),
        TypedValue::Facet(s) => TypedModel::Facet(s@),
        TypedValue::Bytes(b) => TypedModel::Bytes(b@),
        TypedValue::IpAddr(a) => TypedModel::IpAddr(a),
        TypedValue::Array(items) => TypedModel::Array(typed_models(items@)),
        TypedValue::Object(entries) => TypedModel::Object(typed_entry_models(entries@)),
    }
}

/// The contents of a sequence of typed values.
pub open spec fn typed_models(vs: Seq<TypedValue>) -> Seq<TypedModel>
    decreases vs,
{
    if vs.len() == 0 {
        Seq::empty()
    } else {
        typed_models(vs.drop_last()).push(typed_model(vs.last()))
    }
}

/// The contents of the entries of a typed object.
pub open spec fn typed_entry_models(es: Seq<(String, TypedValue)>) -> Seq<
    (Seq<char>, TypedModel),
>
    decreases es,
{
    if es.len() == 0 {
        Seq::empty()
    } else {
        typed_entry_models(es.drop_last()).push((es.last().0@, typed_model(es.last().1)))
    }
}

impl View for TypedValue {
    type V = TypedModel;

    open spec fn view(&self) -> TypedModel {
        typed_model(*self)
    }
}

/// Each model stands at the place of its value.
pub proof fn lemma_dyn_models(vs: Seq<DynValue>)
    ensures
        dyn_models(vs).len() == vs.len(),
        forall|i: int| 0 <= i < vs.len() ==> #[trigger] dyn_models(vs)[i] == vs[i]@,
    decreases vs.len(),
{
    if vs.len() > 0 {
        lemma_dyn_models(vs.drop_last());
    }
}

pub proof fn lemma_dyn_entry_models(es: Seq<(String, DynValue)>)
    ensures
        dyn_entry_models(es).len() == es.len(),
        forall|i: int|
            0 <= i < es.len() ==> #[trigger] dyn_entry_models(es)[i] == (es[i].0@, es[i].1@),
    decreases es.len(),
{
    if es.len() > 0 {
        lemma_dyn_entry_models(es.drop_last());
    }
}

pub proof fn lemma_typed_models(vs: Seq<TypedValue>)
    ensures
        typed_models(vs).len() == vs.len(),
        forall|i: int| 0 <= i < vs.len() ==> #[trigger] typed_models(vs)[i] == vs[i]@,
    decreases vs.len(),
{
    if vs.len() > 0 {
        lemma_typed_models(vs.drop_last());
    }
}

pub proof fn lemma_typed_entry_models(es: Seq<(String, TypedValue)>)
    ensures
        typed_entry_models(es).len() == es.len(),
        forall|i: int|
            0 <= i < es.len() ==> #[trigger] typed_entry_models(es)[i] == (es[i].0@, es[i].1@),
    decreases es.len(),
{
    if es.len() > 0 {
        lemma_typed_entry_models(es.drop_last());
    }
}

/// The same bytes.
pub fn duplicate_bytes(b: &Vec<u8>) -> (r: Vec<u8>)
    ensures
        r@ == b@,
{
    let mut r: Vec<u8> = Vec::new();
    let mut i: usize = 0;
    while i < b.len()
        invariant
            i <= b.len(),
            r@ == b@.take(i as int),
        decreases b.len() - i,
    {
        r.push(b[i]);
        proof {
            assert(b@.take(i + 1) =~= b@.take(i as int).push(b@[i as int]));
        }
        i += 1;
    }
    proof {
        assert(b@.take(b@.len() as int) =~= b@);
    }
    r
}

impl TypedValue {
    /// A typed value with the same content.
    #[verifier::loop_isolation(false)]
    pub fn duplicate(&self) -> (r: TypedValue)
        ensures
            r@ == self@,
        decreases self,
    {
        match self {
            TypedValue::Null => TypedValue::Null,
            TypedValue::Str(s) => TypedValue::Str(s.clone()),
            TypedValue::U64(u) => TypedValue::U64(*u),
            TypedValue::I64(i) => TypedValue::I64(*i),
            TypedValue::F64(s) => TypedValue::F64(s.clone()),
            TypedValue::Bool(b) => TypedValue::Bool(*b),
            TypedValue::Date(n) => TypedValue::Date(*n),
            TypedValue::Facet(s) => TypedValue::Facet(s.clone()),
            TypedValue::Bytes(b) => TypedValue::Bytes(duplicate_bytes(b)),
            TypedValue::IpAddr(a) => TypedValue::IpAddr(*a),
            TypedValue::Array(items) => {
                let mut out: Vec<TypedValue> = Vec::new();
                let mut i: usize = 0;
                proof {
                    assert(items@.take(0) =~= Seq::<TypedValue>::empty());
                }
                while i < items.len()
                    invariant
                        i <= items.len(),
                        typed_models(out@) == typed_models(items@.take(i as int)),
                    decreases items.len() - i,
                {
                    let d = items[i].duplicate();
                    proof {
                        assert(items@.take(i + 1).drop_last() =~= items@.take(i as int));
                        assert(items@.take(i + 1).last() == items@[i as int]);
                        assert(out@.push(d).drop_last() =~= out@);
                    }
                    out.push(d);
                    i += 1;
                }
                proof {
                    assert(items@.take(items@.len() as int) =~= items@);
                }
                TypedValue::Array(out)
            },
            TypedValue::Object(entries) => {
                let mut out: Vec<(String, TypedValue)> = Vec::new();
                let mut i: usize = 0;
                proof {
                    assert(entries@.take(0) =~= Seq::<(String, TypedValue)>::empty());
                }
                while i < entries.len()
                    invariant
                        i <= entries.len(),
                        typed_entry_models(out@) == typed_entry_models(entries@.take(i as int)),
                    decreases entries.len() - i,
                {
                    let d = entries[i].1.duplicate();
                    let key = entries[i].0.clone();
                    proof {
                        assert(entries@.take(i + 1).drop_last() =~= entries@.take(i as int));
                        assert(entries@.take(i + 1).last() == entries@[i as int]);
                        assert(out@.push((key, d)).drop_last() =~= out@);
                    }
                    out.push((key, d));
                    i += 1;
                }
                proof {
                    assert(entries@.take(entries@.len() as int) =~= entries@);
                }
                TypedValue::Object(out)
            },
        }
    }
}

} // verus!
