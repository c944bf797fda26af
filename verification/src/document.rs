//! The document builder: from a loosely typed document to the typed values
//! of its fields, with a note for every field that was not taken.
use vstd::prelude::*;
use crate::coerce::{coerce, coerce_spec, CoercionError};
use crate::schema::{lookup, FieldModel, Schema};
use crate::text::{copy_text, decimal_of, push_decimal, push_text, string_of};
use crate::value::{
    dyn_entry_models, dyn_models, lemma_dyn_entry_models, lemma_dyn_models, lemma_typed_models,
    typed_models, DynModel, DynValue, FieldType, TypedModel, TypedValue,
};

verus! {

/// The typed values of a document, each under its field, in the order in
/// which they were added. A field may occur several times.
#[derive(Debug, PartialEq)]
pub struct Document {
    pub field_values: Vec<(u32, TypedValue)>,
}

pub type DocumentModel = Seq<(u32, TypedModel)>;

pub open spec fn field_value_models(fv: Seq<(u32, TypedValue)>) -> DocumentModel {
    fv.map_values(|e: (u32, TypedValue)| (e.0, e.1@))
}

impl View for Document {
    type V = DocumentModel;

    open spec fn view(&self) -> DocumentModel {
        field_value_models(self.field_values@)
    }
}

/// The values `vs`, each under `field`.
pub open spec fn tagged(field: u32, vs: Seq<TypedModel>) -> DocumentModel {
    vs.map_values(|v: TypedModel| (field, v))
}

/// What was found at a field of the input.
#[derive(Clone, Copy, Debug, PartialEq, Eq, Structural)]
pub enum FieldFault {
    /// The schema has no field of this name; the entry was passed over.
    Unknown,
    /// The field did not take the value.
    Rejected(CoercionError),
}

/// A note on one entry of the input: the name of the field, and what was
/// found.
#[derive(Debug, PartialEq)]
pub struct FieldError {
    pub field: String,
    pub fault: FieldFault,
}

pub struct FieldErrorModel {
    pub field: Seq<char>,
    pub fault: FieldFault,
}

impl View for FieldError {
    type V = FieldErrorModel;

    open spec fn view(&self) -> FieldErrorModel {
        FieldErrorModel { field: self.field@, fault: self.fault }
    }
}

pub open spec fn field_error_models(es: Seq<FieldError>) -> Seq<FieldErrorModel> {
    es.map_values(|e: FieldError| e@)
}

/// What one entry adds to the document and to the notes built so far.
pub open spec fn build_step(
    fields: Seq<FieldModel>,
    so_far: (DocumentModel, Seq<FieldErrorModel>),
    key: Seq<char>,
    value: DynModel,
) -> (DocumentModel, Seq<FieldErrorModel>) {
    match lookup(fields, key) {
        None => (so_far.0, so_far.1.push(FieldErrorModel { field: key, fault: FieldFault::Unknown })),
        Some(i) => match coerce_spec(fields[i].field_type, value) {
            Ok(vs) => (so_far.0 + tagged(i as u32, vs), so_far.1),
            Err(e) => (
                so_far.0,
                so_far.1.push(FieldErrorModel { field: key, fault: FieldFault::Rejected(e) }),
            ),
        },
    }
}

/// The document and the notes that the entries give, taken in order. An
/// entry of an unknown field leaves a note and nothing else; an entry whose
/// value the field takes adds its typed values; any other leaves a note.
pub open spec fn built(fields: Seq<FieldModel>, entries: Seq<(Seq<char>, DynModel)>) -> (
    DocumentModel,
    Seq<FieldErrorModel>,
)
    decreases entries.len(),
{
    if entries.len() == 0 {
        (Seq::empty(), Seq::empty())
    } else {
        build_step(
            fields,
            built(fields, entries.drop_last()),
            entries.last().0,
            entries.last().1,
        )
    }
}

/// Whether a note tells of a value that its field did not take.
pub open spec fn has_rejection(notes: Seq<FieldErrorModel>) -> bool {
    exists|i: int| 0 <= i < notes.len() && (#[trigger] notes[i]).fault is Rejected
}

/// What the value `value` for the field `field`, called `name` and of type
/// `field_type`, makes of a document: the document with the typed values
/// of the value added under the field, or, where the field's type does not
/// take the value, the note of that under the field's name.
pub open spec fn field_added(
    doc: DocumentModel,
    field: u32,
    name: Seq<char>,
    field_type: FieldType,
    value: DynModel,
) -> Result<DocumentModel, FieldErrorModel> {
    match coerce_spec(field_type, value) {
        Ok(vs) => Ok(doc + tagged(field, vs)),
        Err(e) => Err(FieldErrorModel { field: name, fault: FieldFault::Rejected(e) }),
    }
}

/// Appends the typed values of `value` to `doc` under `field`. Where the
/// field's type does not take the value, `doc` stays as it is, and the
/// error names the field and says why.
pub fn add_field_to_document(
    doc: &mut Document,
    field: u32,
    field_name: &str,
    field_type: FieldType,
    value: &DynValue,
) -> (r: Result<(), FieldError>)
    ensures
        match r {
            Ok(_) => field_added(old(doc)@, field, field_name@, field_type, value@) == Ok::<
                DocumentModel,
                FieldErrorModel,
            >(final(doc)@),
            Err(e) => field_added(old(doc)@, field, field_name@, field_type, value@) == Err::<
                DocumentModel,
                FieldErrorModel,
            >(e@) && final(doc)@ == old(doc)@,
        },
{
    match coerce(field_type, value) {
        Ok(values) => {
            let ghost models = typed_models(values@);
            proof {
                lemma_typed_models(values@);
                assert(old(doc)@ + tagged(field, models.take(0)) =~= old(doc)@);
            }
            for v in it: values
                invariant
                    it.seq() == values@,
                    models == typed_models(values@),
                    models.len() == values@.len(),
                    forall|k: int| 0 <= k < values@.len() ==> #[trigger] models[k] == values@[k]@,
                    doc@ == old(doc)@ + tagged(field, models.take(it.index() as int)),
            {
                proof {
                    let i = it.index() as int;
                    assert(field_value_models(doc.field_values@.push((field, v)))
                        =~= field_value_models(doc.field_values@).push((field, v@)));
                    assert(tagged(field, models.take(i + 1)) =~= tagged(
                        field,
                        models.take(i),
                    ).push((field, models[i])));
                    assert(old(doc)@ + tagged(field, models.take(i + 1)) =~= (old(doc)@ + tagged(
                        field,
                        models.take(i),
                    )).push((field, v@)));
                }
                doc.field_values.push((field, v));
            }
            proof {
                assert(models.take(models.len() as int) =~= models);
            }
            Ok(())
        },
        Err(e) => Err(FieldError { field: copy_text(field_name), fault: FieldFault::Rejected(e) }),
    }
}

/// Builds the document of the entries of a loosely typed document, and the
/// notes on the entries that gave nothing.
pub fn build_document(schema: &Schema, entries: &Vec<(String, DynValue)>) -> (r: (
    Document,
    Vec<FieldError>,
))
    ensures
        (r.0@, field_error_models(r.1@)) == built(schema@, dyn_entry_models(entries@)),
{
    let ghost ms = dyn_entry_models(entries@);
    let mut doc = Document { field_values: Vec::new() };
    let mut notes: Vec<FieldError> = Vec::new();
    let mut i: usize = 0;
    proof {
        lemma_dyn_entry_models(entries@);
        assert(doc@ =~= Seq::<(u32, TypedModel)>::empty());
        assert(field_error_models(notes@) =~= Seq::<FieldErrorModel>::empty());
    }
    while i < entries.len()
        invariant
            i <= entries.len(),
            ms == dyn_entry_models(entries@),
            ms.len() == entries@.len(),
            forall|k: int|
                0 <= k < entries@.len() ==> #[trigger] ms[k] == (entries@[k].0@, entries@[k].1@),
            (doc@, field_error_models(notes@)) == built(schema@, ms.take(i as int)),
        decreases entries.len() - i,
    {
        let key = entries[i].0.as_str();
        let value = &entries[i].1;
        proof {
            assert(ms.take(i + 1).drop_last() =~= ms.take(i as int));
            assert(ms.take(i + 1).last() == (key@, value@));
        }
        match schema.get_field(key) {
            None => {
                let note = FieldError { field: copy_text(key), fault: FieldFault::Unknown };
                proof {
                    assert(field_error_models(notes@.push(note)) =~= field_error_models(
                        notes@,
                    ).push(note@));
                }
                notes.push(note);
            },
            Some(field) => {
                let field_type = schema.get_field_entry(field).field_type;
                match add_field_to_document(&mut doc, field, key, field_type, value) {
                    Ok(_) => {},
                    Err(note) => {
                        proof {
                            assert(field_error_models(notes@.push(note)) =~= field_error_models(
                                notes@,
                            ).push(note@));
                        }
                        notes.push(note);
                    },
                }
            },
        }
        i += 1;
    }
    proof {
        assert(ms.take(ms.len() as int) =~= ms);
    }
    (doc, notes)
}

/// Why a loosely typed document gave no document.
#[derive(Debug, PartialEq)]
pub enum DocumentError {
    /// The input is no object of named entries.
    NotAnObject,
    /// Entries were refused; the notes say which, and why.
    Refused(Vec<FieldError>),
}

pub enum DocumentErrorModel {
    NotAnObject,
    Refused(Seq<FieldErrorModel>),
}

impl View for DocumentError {
    type V = DocumentErrorModel;

    open spec fn view(&self) -> DocumentErrorModel {
        match self {
            DocumentError::NotAnObject => DocumentErrorModel::NotAnObject,
            DocumentError::Refused(notes) => DocumentErrorModel::Refused(
                field_error_models(notes@),
            ),
        }
    }
}

pub open spec fn document_result_model(r: Result<Document, DocumentError>) -> Result<
    DocumentModel,
    DocumentErrorModel,
> {
    match r {
        Ok(d) => Ok(d@),
        Err(e) => Err(e@),
    }
}

/// The document to index for a loosely typed document. A document of which
/// a field did not take its value is refused whole, with every note; a
/// field that the schema does not know is passed over.
pub open spec fn indexable(fields: Seq<FieldModel>, document: DynModel) -> Result<
    DocumentModel,
    DocumentErrorModel,
> {
    match document {
        DynModel::Object(entries) => {
            let (doc, notes) = built(fields, entries);
            if has_rejection(notes) {
                Err(DocumentErrorModel::Refused(notes))
            } else {
                Ok(doc)
            }
        },
        _ => Err(DocumentErrorModel::NotAnObject),
    }
}

fn any_rejection(notes: &Vec<FieldError>) -> (r: bool)
    ensures
        r == has_rejection(field_error_models(notes@)),
{
    let ghost ms = field_error_models(notes@);
    let mut i: usize = 0;
    while i < notes.len()
        invariant
            i <= notes.len(),
            ms == field_error_models(notes@),
            forall|k: int| 0 <= k < i ==> !((#[trigger] ms[k]).fault is Rejected),
        decreases notes.len() - i,
    {
        match notes[i].fault {
            FieldFault::Rejected(_) => {
                proof {
                    assert(ms[i as int].fault is Rejected);
                }
                return true;
            },
            FieldFault::Unknown => {},
        }
        i += 1;
    }
    false
}

/// Builds the document to index for a loosely typed document.
pub fn writer_add_document(schema: &Schema, document: &DynValue) -> (r: Result<
    Document,
    DocumentError,
>)
    ensures
        document_result_model(r) == indexable(schema@, document@),
{
    match document {
        DynValue::Object(entries) => {
            let (doc, notes) = build_document(schema, entries);
            if any_rejection(&notes) {
                Err(DocumentError::Refused(notes))
            } else {
                Ok(doc)
            }
        },
        _ => Err(DocumentError::NotAnObject),
    }
}

/// Whether a loosely typed document fits the schema: every entry names a
/// field, and the field takes the value. Else every note is returned.
pub open spec fn validation(fields: Seq<FieldModel>, document: DynModel) -> Result<
    (),
    DocumentErrorModel,
> {
    match document {
        DynModel::Object(entries) => {
            let notes = built(fields, entries).1;
            if notes.len() > 0 {
                Err(DocumentErrorModel::Refused(notes))
            } else {
                Ok(())
            }
        },
        _ => Err(DocumentErrorModel::NotAnObject),
    }
}

/// Checks a loosely typed document against a schema.
pub fn validate_document_against_schema(document: &DynValue, schema: &Schema) -> (r: Result<
    (),
    DocumentError,
>)
    ensures
        match r {
            Ok(_) => validation(schema@, document@) is Ok,
            Err(e) => validation(schema@, document@) == Err::<(), DocumentErrorModel>(e@),
        },
{
    match document {
        DynValue::Object(entries) => {
            let (_, notes) = build_document(schema, entries);
            if notes.len() > 0 {
                Err(DocumentError::Refused(notes))
            } else {
                Ok(())
            }
        },
        _ => Err(DocumentError::NotAnObject),
    }
}

/// The outcome of a batch: the documents to index and the refusals, each
/// with the position of its input.
#[derive(Debug, PartialEq)]
pub struct BatchOutcome {
    pub accepted: Vec<(usize, Document)>,
    pub refused: Vec<(usize, DocumentError)>,
}

pub open spec fn accepted_models(a: Seq<(usize, Document)>) -> Seq<(int, DocumentModel)> {
    a.map_values(|e: (usize, Document)| (e.0 as int, e.1@))
}

pub open spec fn refused_models(a: Seq<(usize, DocumentError)>) -> Seq<
    (int, DocumentErrorModel),
> {
    a.map_values(|e: (usize, DocumentError)| (e.0 as int, e.1@))
}

/// The documents of a batch and its refusals, each input judged by itself.
pub open spec fn batch_built(fields: Seq<FieldModel>, documents: Seq<DynModel>) -> (
    Seq<(int, DocumentModel)>,
    Seq<(int, DocumentErrorModel)>,
)
    decreases documents.len(),
{
    if documents.len() == 0 {
        (Seq::empty(), Seq::empty())
    } else {
        let before = batch_built(fields, documents.drop_last());
        let at = documents.len() - 1;
        match indexable(fields, documents.last()) {
            Ok(d) => (before.0.push((at, d)), before.1),
            Err(e) => (before.0, before.1.push((at, e))),
        }
    }
}

/// Builds the documents of a batch. One input that is refused does not
/// keep the others back.
pub fn writer_add_document_batch(schema: &Schema, documents: &Vec<DynValue>) -> (r: BatchOutcome)
    ensures
        (accepted_models(r.accepted@), refused_models(r.refused@)) == batch_built(
            schema@,
            dyn_models(documents@),
        ),
        r.accepted@.len() + r.refused@.len() == documents@.len(),
{
    let ghost ms = dyn_models(documents@);
    let mut accepted: Vec<(usize, Document)> = Vec::new();
    let mut refused: Vec<(usize, DocumentError)> = Vec::new();
    let mut i: usize = 0;
    proof {
        lemma_dyn_models(documents@);
        assert(accepted_models(accepted@) =~= Seq::<(int, DocumentModel)>::empty());
        assert(refused_models(refused@) =~= Seq::<(int, DocumentErrorModel)>::empty());
    }
    while i < documents.len()
        invariant
            i <= documents.len(),
            ms == dyn_models(documents@),
            ms.len() == documents@.len(),
            forall|k: int| 0 <= k < documents@.len() ==> #[trigger] ms[k] == documents@[k]@,
            (accepted_models(accepted@), refused_models(refused@)) == batch_built(
                schema@,
                ms.take(i as int),
            ),
            accepted@.len() + refused@.len() == i,
        decreases documents.len() - i,
    {
        proof {
            assert(ms.take(i + 1).drop_last() =~= ms.take(i as int));
            assert(ms.take(i + 1).last() == documents@[i as int]@);
        }
        match writer_add_document(schema, &documents[i]) {
            Ok(d) => {
                proof {
                    assert(accepted_models(accepted@.push((i, d))) =~= accepted_models(
                        accepted@,
                    ).push((i as int, d@)));
                }
                accepted.push((i, d));
            },
            Err(e) => {
                proof {
                    assert(refused_models(refused@.push((i, e))) =~= refused_models(refused@).push(
                        (i as int, e@),
                    ));
                }
                refused.push((i, e));
            },
        }
        i += 1;
    }
    proof {
        assert(ms.take(ms.len() as int) =~= ms);
    }
    BatchOutcome { accepted, refused }
}

/// The summary of a batch as JSON text.
pub open spec fn batch_summary_text(successful: nat, errors: nat) -> Seq<char> {
    "{\"successful\": "@ + decimal_of(successful) + ", \"errors\": "@ + decimal_of(errors) + "}"@
}

/// Writes the summary of a batch: how many documents went in, and how many
/// were refused.
pub fn batch_summary(successful: usize, errors: usize) -> (s: String)
    ensures
        s@ == batch_summary_text(successful as nat, errors as nat),
{
    let mut out: Vec<char> = Vec::new();
    push_text(&mut out, "{\"successful\": ");
    push_decimal(&mut out, successful as u64);
    push_text(&mut out, ", \"errors\": ");
    push_decimal(&mut out, errors as u64);
    push_text(&mut out, "}");
    proof {
        assert(out@ =~= batch_summary_text(successful as nat, errors as nat));
    }
    string_of(&out)
}

} // verus!
