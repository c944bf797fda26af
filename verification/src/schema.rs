//! Schemas: an ordered set of named, typed fields with their capabilities.
//! A schema is never changed in place: adding a field gives a new schema.
use vstd::prelude::*;
use crate::text::{copy_text, same_text, chars_of, push_text, push_decimal, string_of, decimal_of};
use crate::value::FieldType;

verus! {

/// What the index records for each term of a text field.
#[derive(Clone, Copy, Debug, PartialEq, Eq, Structural)]
pub enum IndexRecord {
    Basic,
    WithFreqs,
    WithFreqsAndPositions,
}

impl IndexRecord {
    /// Whether term positions are recorded, so that phrases can be matched.
    pub open spec fn positions(self) -> bool {
        self == IndexRecord::WithFreqsAndPositions
    }

    pub fn has_positions(&self) -> (r: bool)
        ensures
            r == self.positions(),
    {
        match self {
            IndexRecord::WithFreqsAndPositions => true,
            _ => false,
        }
    }
}

/// A field of a schema. `tokenizer` and `record` count for an indexed text
/// field only.
#[derive(Debug, PartialEq)]
pub struct FieldEntry {
    pub name: String,
    pub field_type: FieldType,
    pub indexed: bool,
    pub stored: bool,
    pub fast: bool,
    pub tokenizer: String,
    pub record: IndexRecord,
}

pub struct FieldModel {
    pub name: Seq<char>,
    pub field_type: FieldType,
    pub indexed: bool,
    pub stored: bool,
    pub fast: bool,
    pub tokenizer: Seq<char>,
    pub record: IndexRecord,
}

impl FieldModel {
    /// A text field whose values are split into terms when indexed.
    pub open spec fn tokenized(self) -> bool {
        self.field_type == FieldType::Text && self.indexed
    }

    /// A tokenized text field that records the position of each term.
    pub open spec fn positions(self) -> bool {
        self.tokenized() && self.record.positions()
    }
}

impl View for FieldEntry {
    type V = FieldModel;

    open spec fn view(&self) -> FieldModel {
        FieldModel {
            name: self.name@,
            field_type: self.field_type,
            indexed: self.indexed,
            stored: self.stored,
            fast: self.fast,
            tokenizer: self.tokenizer@,
            record: self.record,
        }
    }
}

impl FieldEntry {
    pub fn is_tokenized(&self) -> (r: bool)
        ensures
            r == self@.tokenized(),
    {
        self.field_type == FieldType::Text && self.indexed
    }

    pub fn has_positions(&self) -> (r: bool)
        ensures
            r == self@.positions(),
    {
        self.is_tokenized() && self.record.has_positions()
    }

    pub fn duplicate(&self) -> (r: FieldEntry)
        ensures
            r@ == self@,
    {
        FieldEntry {
            name: self.name.clone(),
            field_type: self.field_type,
            indexed: self.indexed,
            stored: self.stored,
            fast: self.fast,
            tokenizer: self.tokenizer.clone(),
            record: self.record,
        }
    }
}

/// A name that a field may have: not empty, and not starting with `-`.
pub open spec fn valid_field_name(name: Seq<char>) -> bool {
    name.len() > 0 && name[0] != '-'
}

pub open spec fn has_field(fields: Seq<FieldModel>, name: Seq<char>) -> bool {
    exists|i: int| 0 <= i < fields.len() && #[trigger] fields[i].name == name
}

/// The position of the field called `name`, if there is one.
pub open spec fn lookup(fields: Seq<FieldModel>, name: Seq<char>) -> Option<int> {
    if has_field(fields, name) {
        Some(choose|i: int| 0 <= i < fields.len() && #[trigger] fields[i].name == name)
    } else {
        None
    }
}

pub open spec fn distinct_names(fields: Seq<FieldModel>) -> bool {
    forall|i: int, j: int|
        0 <= i < fields.len() && 0 <= j < fields.len() && i != j ==> #[trigger] fields[i].name
            != #[trigger] fields[j].name
}

pub open spec fn valid_names(fields: Seq<FieldModel>) -> bool {
    forall|i: int| 0 <= i < fields.len() ==> valid_field_name(#[trigger] fields[i].name)
}

/// Why a schema operation was refused.
#[derive(Debug, PartialEq)]
pub enum SchemaError {
    /// A field of this name exists already.
    DuplicateField(String),
    /// The name is empty or starts with `-`.
    InvalidFieldName(String),
    /// No field has this name.
    UnknownField(String),
    /// The schema has no field.
    EmptySchema,
    /// The schema holds as many fields as a field identifier can number.
    TooManyFields,
}

pub enum SchemaErrorModel {
    DuplicateField(Seq<char>),
    InvalidFieldName(Seq<char>),
    UnknownField(Seq<char>),
    EmptySchema,
    TooManyFields,
}

impl View for SchemaError {
    type V = SchemaErrorModel;

    open spec fn view(&self) -> SchemaErrorModel {
        match self {
            SchemaError::DuplicateField(n) => SchemaErrorModel::DuplicateField(n@),
            SchemaError::InvalidFieldName(n) => SchemaErrorModel::InvalidFieldName(n@),
            SchemaError::UnknownField(n) => SchemaErrorModel::UnknownField(n@),
            SchemaError::EmptySchema => SchemaErrorModel::EmptySchema,
            SchemaError::TooManyFields => SchemaErrorModel::TooManyFields,
        }
    }
}

/// The fields after `entry` is added, or why it cannot be added.
pub open spec fn extended(fields: Seq<FieldModel>, entry: FieldModel) -> Result<
    Seq<FieldModel>,
    SchemaErrorModel,
> {
    if !valid_field_name(entry.name) {
        Err(SchemaErrorModel::InvalidFieldName(entry.name))
    } else if has_field(fields, entry.name) {
        Err(SchemaErrorModel::DuplicateField(entry.name))
    } else if fields.len() >= u32::MAX {
        Err(SchemaErrorModel::TooManyFields)
    } else {
        Ok(fields.push(entry))
    }
}

/// An immutable, ordered set of fields with distinct, valid names.
#[derive(Debug, PartialEq)]
pub struct Schema {
    fields: Vec<FieldEntry>,
}

pub open spec fn field_models(fields: Seq<FieldEntry>) -> Seq<FieldModel> {
    fields.map_values(|e: FieldEntry| e@)
}

impl View for Schema {
    type V = Seq<FieldModel>;

    closed spec fn view(&self) -> Seq<FieldModel> {
        field_models(self.fields@)
    }
}

impl Schema {
    #[verifier::type_invariant]
    spec fn well_formed(self) -> bool {
        &&& distinct_names(field_models(self.fields@))
        &&& valid_names(field_models(self.fields@))
        &&& self.fields@.len() <= u32::MAX
    }

    /// The schema without fields.
    pub fn empty() -> (s: Schema)
        ensures
            s@ == Seq::<FieldModel>::empty(),
    {
        let s = Schema { fields: Vec::new() };
        proof {
            assert(field_models(s.fields@) =~= Seq::<FieldModel>::empty());
        }
        s
    }

    /// The number of fields. Every schema holds distinct, valid names, and
    /// no more fields than a field identifier can number.
    pub fn len(&self) -> (n: usize)
        ensures
            n == self@.len(),
            n <= u32::MAX,
            distinct_names(self@),
            valid_names(self@),
    {
        proof {
            use_type_invariant(self);
        }
        self.fields.len()
    }

    /// The identifier of the field called `name`.
    pub fn get_field(&self, name: &str) -> (r: Option<u32>)
        ensures
            match r {
                Some(f) => lookup(self@, name@) == Some(f as int) && f < self@.len() && self@[f as int].name == name@,
                None => lookup(self@, name@) is None && !has_field(self@, name@),
            },
    {
        proof {
            use_type_invariant(self);
        }
        let mut i: usize = 0;
        while i < self.fields.len()
            invariant
                i <= self.fields.len(),
                self.fields@.len() <= u32::MAX,
                distinct_names(field_models(self.fields@)),
                forall|k: int| 0 <= k < i ==> #[trigger] field_models(self.fields@)[k].name != name@,
            decreases self.fields.len() - i,
        {
            if same_text(self.fields[i].name.as_str(), name) {
                proof {
                    let fs = field_models(self.fields@);
                    assert(fs[i as int].name == name@);
                    assert(has_field(fs, name@));
                    let c = choose|c: int| 0 <= c < fs.len() && #[trigger] fs[c].name == name@;
                    assert(c == i);
                }
                return Some(i as u32);
            }
            i += 1;
        }
        None
    }

    /// The entry of a field of this schema.
    pub fn get_field_entry(&self, field: u32) -> (e: &FieldEntry)
        requires
            field < self@.len(),
        ensures
            e@ == self@[field as int],
    {
        &self.fields[field as usize]
    }

    /// This schema with `entry` as its last field.
    pub fn with_field(&self, entry: FieldEntry) -> (r: Result<Schema, SchemaError>)
        ensures
            match r {
                Ok(s) => extended(self@, entry@) == Ok::<Seq<FieldModel>, SchemaErrorModel>(s@),
                Err(e) => extended(self@, entry@) == Err::<Seq<FieldModel>, SchemaErrorModel>(e@),
            },
    {
        proof {
            use_type_invariant(self);
        }
        let name_chars = chars_of(entry.name.as_str());
        if name_chars.len() == 0 || name_chars[0] == '-' {
            return Err(SchemaError::InvalidFieldName(entry.name));
        }
        if self.get_field(entry.name.as_str()).is_some() {
            return Err(SchemaError::DuplicateField(entry.name));
        }
        if self.fields.len() >= u32::MAX as usize {
            return Err(SchemaError::TooManyFields);
        }
        let mut fields: Vec<FieldEntry> = Vec::new();
        let mut i: usize = 0;
        while i < self.fields.len()
            invariant
                i <= self.fields.len(),
                field_models(fields@) == field_models(self.fields@).take(i as int),
            decreases self.fields.len() - i,
        {
            let copy = self.fields[i].duplicate();
            proof {
                let olds = field_models(self.fields@);
                assert(field_models(fields@.push(copy)) =~= field_models(fields@).push(copy@));
                assert(olds[i as int] == self.fields@[i as int]@);
                assert(olds.take(i + 1) =~= olds.take(i as int).push(olds[i as int]));
            }
            fields.push(copy);
            i += 1;
        }
        proof {
            let old_models = field_models(self.fields@);
            assert(old_models.take(old_models.len() as int) =~= old_models);
            assert(field_models(fields@.push(entry)) =~= old_models.push(entry@));
            let new_models = old_models.push(entry@);
            assert forall|a: int, b: int|
                0 <= a < new_models.len() && 0 <= b < new_models.len() && a != b implies #[trigger] new_models[a].name
                != #[trigger] new_models[b].name by {
                if a < old_models.len() {
                    assert(old_models[a].name == new_models[a].name);
                }
                if b < old_models.len() {
                    assert(old_models[b].name == new_models[b].name);
                }
            }
            assert forall|a: int| 0 <= a < new_models.len() implies valid_field_name(
                #[trigger] new_models[a].name,
            ) by {
                if a < old_models.len() {
                    assert(old_models[a].name == new_models[a].name);
                }
            }
        }
        fields.push(entry);
        Ok(Schema { fields })
    }
}


/// What a field is able to do.
pub struct Capabilities {
    pub indexed: bool,
    pub stored: bool,
    pub fast: bool,
}

/// The capabilities that an options word gives a field of a number, a
/// truth value, a date or an address. A word that is not known gives an
/// indexed field.
pub open spec fn plain_capabilities(options: Seq<char>) -> Capabilities {
    if options == "INDEXED_STORED"@ {
        Capabilities { indexed: true, stored: true, fast: false }
    } else if options == "INDEXED"@ {
        Capabilities { indexed: true, stored: false, fast: false }
    } else if options == "STORED"@ {
        Capabilities { indexed: false, stored: true, fast: false }
    } else if options == "FAST"@ {
        Capabilities { indexed: false, stored: false, fast: true }
    } else if options == "FAST_STORED"@ {
        Capabilities { indexed: false, stored: true, fast: true }
    } else {
        Capabilities { indexed: true, stored: false, fast: false }
    }
}

/// The capabilities of a bytes field: as for a number, but a word that is
/// not known gives a stored field.
pub open spec fn bytes_capabilities(options: Seq<char>) -> Capabilities {
    if options == "INDEXED_STORED"@ || options == "INDEXED"@ || options == "STORED"@ || options
        == "FAST"@ || options == "FAST_STORED"@ {
        plain_capabilities(options)
    } else {
        Capabilities { indexed: false, stored: true, fast: false }
    }
}

/// The capabilities of a JSON field: stored where asked for, else none.
pub open spec fn json_capabilities(options: Seq<char>) -> Capabilities {
    Capabilities { indexed: false, stored: options == "STORED"@, fast: false }
}

/// The capabilities of a facet field, whatever is asked for: indexed and
/// fast.
pub open spec fn facet_capabilities() -> Capabilities {
    Capabilities { indexed: true, stored: false, fast: true }
}

/// The capabilities that an options word gives a field of the given type.
pub open spec fn capabilities_of(field_type: FieldType, options: Seq<char>) -> Capabilities {
    match field_type {
        FieldType::Bytes => bytes_capabilities(options),
        FieldType::JsonObject => json_capabilities(options),
        FieldType::Facet => facet_capabilities(),
        _ => plain_capabilities(options),
    }
}

/// The name of the tokenizer of a text field for which none is named.
pub open spec fn default_tokenizer() -> Seq<char> {
    "default"@
}

/// A field of a type other than text, by its options word.
pub open spec fn plain_entry(name: Seq<char>, field_type: FieldType, options: Seq<char>) -> FieldModel {
    let c = capabilities_of(field_type, options);
    FieldModel {
        name,
        field_type,
        indexed: c.indexed,
        stored: c.stored,
        fast: c.fast,
        tokenizer: Seq::empty(),
        record: IndexRecord::Basic,
    }
}

/// A text field by its options word. `STORED` gives a field that is kept
/// and not indexed; every other word an indexed field, `TEXT_STORED` a
/// stored one too, `FAST` a fast one, `FAST_STORED` one that is stored,
/// fast and records positions.
pub open spec fn text_entry(name: Seq<char>, options: Seq<char>, tokenizer: Seq<char>) -> FieldModel {
    let indexed = options != "STORED"@;
    FieldModel {
        name,
        field_type: FieldType::Text,
        indexed,
        stored: options == "TEXT_STORED"@ || options == "STORED"@ || options == "FAST_STORED"@,
        fast: options == "FAST"@ || options == "FAST_STORED"@,
        tokenizer: if indexed {
            tokenizer
        } else {
            Seq::empty()
        },
        record: if options == "FAST_STORED"@ {
            IndexRecord::WithFreqsAndPositions
        } else {
            IndexRecord::Basic
        },
    }
}

/// A text field with a tokenizer of its own. `STORED` gives a field that
/// is kept and not indexed; every other word an indexed field, stored for
/// `TEXT_STORED`.
pub open spec fn tokenized_entry(name: Seq<char>, options: Seq<char>, tokenizer: Seq<char>) -> FieldModel {
    let indexed = options != "STORED"@;
    FieldModel {
        name,
        field_type: FieldType::Text,
        indexed,
        stored: options == "TEXT_STORED"@ || options == "STORED"@,
        fast: false,
        tokenizer: if indexed {
            tokenizer
        } else {
            Seq::empty()
        },
        record: IndexRecord::Basic,
    }
}

pub open spec fn schema_result_model(r: Result<Schema, SchemaError>) -> Result<
    Seq<FieldModel>,
    SchemaErrorModel,
> {
    match r {
        Ok(s) => Ok(s@),
        Err(e) => Err(e@),
    }
}

fn make_plain_entry(field_name: &str, field_type: FieldType, options: &str) -> (e: FieldEntry)
    requires
        field_type != FieldType::Text,
    ensures
        e@ == plain_entry(field_name@, field_type, options@),
{
    let known = same_text(options, "INDEXED_STORED") || same_text(options, "INDEXED") || same_text(
        options,
        "STORED",
    ) || same_text(options, "FAST") || same_text(options, "FAST_STORED");
    let stored_word = same_text(options, "STORED");
    let plain_indexed = same_text(options, "INDEXED_STORED") || same_text(options, "INDEXED")
        || !known;
    let plain_stored = same_text(options, "INDEXED_STORED") || stored_word || same_text(
        options,
        "FAST_STORED",
    );
    let plain_fast = same_text(options, "FAST") || same_text(options, "FAST_STORED");
    proof {
        reveal_strlit("INDEXED_STORED");
        reveal_strlit("INDEXED");
        reveal_strlit("STORED");
        reveal_strlit("FAST");
        reveal_strlit("FAST_STORED");
        assert("INDEXED_STORED"@.len() == 14);
        assert("INDEXED"@.len() == 7);
        assert("STORED"@.len() == 6);
        assert("FAST"@.len() == 4);
        assert("FAST_STORED"@.len() == 11);
    }
    let (indexed, stored, fast) = match field_type {
        FieldType::Bytes => {
            if known {
                (plain_indexed, plain_stored, plain_fast)
            } else {
                (false, true, false)
            }
        },
        FieldType::JsonObject => (false, stored_word, false),
        FieldType::Facet => (true, false, true),
        _ => (plain_indexed, plain_stored, plain_fast),
    };
    FieldEntry {
        name: copy_text(field_name),
        field_type,
        indexed,
        stored,
        fast,
        tokenizer: String::new(),
        record: IndexRecord::Basic,
    }
}

/// The schema without fields, to which fields are added.
pub fn schema_builder_new() -> (s: Schema)
    ensures
        s@ == Seq::<FieldModel>::empty(),
{
    Schema::empty()
}

/// The schema with one more text field, tokenized by the default
/// tokenizer where it is indexed.
pub fn schema_add_text_field(schema: &Schema, field_name: &str, options: &str) -> (r: Result<
    Schema,
    SchemaError,
>)
    ensures
        schema_result_model(r) == extended(
            schema@,
            text_entry(field_name@, options@, default_tokenizer()),
        ),
{
    let indexed = !same_text(options, "STORED");
    let positions = same_text(options, "FAST_STORED");
    let entry = FieldEntry {
        name: copy_text(field_name),
        field_type: FieldType::Text,
        indexed,
        stored: same_text(options, "TEXT_STORED") || same_text(options, "STORED") || positions,
        fast: same_text(options, "FAST") || positions,
        tokenizer: if indexed {
            copy_text("default")
        } else {
            String::new()
        },
        record: if positions {
            IndexRecord::WithFreqsAndPositions
        } else {
            IndexRecord::Basic
        },
    };
    schema.with_field(entry)
}

/// The schema with one more text field, tokenized by the tokenizer of the
/// given name where it is indexed.
pub fn schema_add_text_field_with_tokenizer(
    schema: &Schema,
    field_name: &str,
    options: &str,
    tokenizer: &str,
) -> (r: Result<Schema, SchemaError>)
    ensures
        schema_result_model(r) == extended(
            schema@,
            tokenized_entry(field_name@, options@, tokenizer@),
        ),
{
    let indexed = !same_text(options, "STORED");
    let entry = FieldEntry {
        name: copy_text(field_name),
        field_type: FieldType::Text,
        indexed,
        stored: same_text(options, "TEXT_STORED") || same_text(options, "STORED"),
        fast: false,
        tokenizer: if indexed {
            copy_text(tokenizer)
        } else {
            String::new()
        },
        record: IndexRecord::Basic,
    };
    schema.with_field(entry)
}

pub fn schema_add_u64_field(schema: &Schema, field_name: &str, options: &str) -> (r: Result<
    Schema,
    SchemaError,
>)
    ensures
        schema_result_model(r) == extended(
            schema@,
            plain_entry(field_name@, FieldType::U64, options@),
        ),
{
    schema.with_field(make_plain_entry(field_name, FieldType::U64, options))
}

pub fn schema_add_i64_field(schema: &Schema, field_name: &str, options: &str) -> (r: Result<
    Schema,
    SchemaError,
>)
    ensures
        schema_result_model(r) == extended(
            schema@,
            plain_entry(field_name@, FieldType::I64, options@),
        ),
{
    schema.with_field(make_plain_entry(field_name, FieldType::I64, options))
}

pub fn schema_add_f64_field(schema: &Schema, field_name: &str, options: &str) -> (r: Result<
    Schema,
    SchemaError,
>)
    ensures
        schema_result_model(r) == extended(
            schema@,
            plain_entry(field_name@, FieldType::F64, options@),
        ),
{
    schema.with_field(make_plain_entry(field_name, FieldType::F64, options))
}

pub fn schema_add_bool_field(schema: &Schema, field_name: &str, options: &str) -> (r: Result<
    Schema,
    SchemaError,
>)
    ensures
        schema_result_model(r) == extended(
            schema@,
            plain_entry(field_name@, FieldType::Bool, options@),
        ),
{
    schema.with_field(make_plain_entry(field_name, FieldType::Bool, options))
}

pub fn schema_add_date_field(schema: &Schema, field_name: &str, options: &str) -> (r: Result<
    Schema,
    SchemaError,
>)
    ensures
        schema_result_model(r) == extended(
            schema@,
            plain_entry(field_name@, FieldType::Date, options@),
        ),
{
    schema.with_field(make_plain_entry(field_name, FieldType::Date, options))
}

/// The schema with one more facet field. A facet field is indexed and
/// fast, whatever the options word.
pub fn schema_add_facet_field(schema: &Schema, field_name: &str, options: &str) -> (r: Result<
    Schema,
    SchemaError,
>)
    ensures
        schema_result_model(r) == extended(
            schema@,
            plain_entry(field_name@, FieldType::Facet, options@),
        ),
{
    schema.with_field(make_plain_entry(field_name, FieldType::Facet, options))
}

pub fn schema_add_bytes_field(schema: &Schema, field_name: &str, options: &str) -> (r: Result<
    Schema,
    SchemaError,
>)
    ensures
        schema_result_model(r) == extended(
            schema@,
            plain_entry(field_name@, FieldType::Bytes, options@),
        ),
{
    schema.with_field(make_plain_entry(field_name, FieldType::Bytes, options))
}

pub fn schema_add_json_field(schema: &Schema, field_name: &str, options: &str) -> (r: Result<
    Schema,
    SchemaError,
>)
    ensures
        schema_result_model(r) == extended(
            schema@,
            plain_entry(field_name@, FieldType::JsonObject, options@),
        ),
{
    schema.with_field(make_plain_entry(field_name, FieldType::JsonObject, options))
}

pub fn schema_add_ip_addr_field(schema: &Schema, field_name: &str, options: &str) -> (r: Result<
    Schema,
    SchemaError,
>)
    ensures
        schema_result_model(r) == extended(
            schema@,
            plain_entry(field_name@, FieldType::IpAddr, options@),
        ),
{
    schema.with_field(make_plain_entry(field_name, FieldType::IpAddr, options))
}

/// The names of the fields, in the order of the schema.
pub open spec fn names_of(fields: Seq<FieldModel>) -> Seq<Seq<char>> {
    fields.map_values(|f: FieldModel| f.name)
}

pub fn schema_get_field_names(schema: &Schema) -> (names: Vec<String>)
    ensures
        crate::text::texts(names@) == names_of(schema@),
{
    let mut names: Vec<String> = Vec::new();
    let n = schema.len();
    let mut i: usize = 0;
    while i < n
        invariant
            i <= n,
            n == schema@.len(),
            n <= u32::MAX,
            names.len() == i,
            forall|k: int| 0 <= k < i ==> (#[trigger] names@[k])@ == schema@[k].name,
        decreases n - i,
    {
        names.push(schema.get_field_entry(i as u32).name.clone());
        i += 1;
    }
    proof {
        assert(crate::text::texts(names@) =~= names_of(schema@));
    }
    names
}

/// The word for a field type.
pub open spec fn kind_word(field_type: FieldType) -> Seq<char> {
    match field_type {
        FieldType::Text => "text"@,
        FieldType::U64 => "u64"@,
        FieldType::I64 => "i64"@,
        FieldType::F64 => "f64"@,
        FieldType::Bool => "bool"@,
        FieldType::Date => "date"@,
        FieldType::Facet => "facet"@,
        FieldType::Bytes => "bytes"@,
        FieldType::JsonObject => "json"@,
        FieldType::IpAddr => "ip_addr"@,
    }
}

/// The word for the type of the field called `name`.
pub fn schema_get_field_type(schema: &Schema, field_name: &str) -> (r: Result<String, SchemaError>)
    ensures
        match r {
            Ok(word) => lookup(schema@, field_name@) is Some && word@ == kind_word(
                schema@[lookup(schema@, field_name@)->0].field_type,
            ),
            Err(e) => lookup(schema@, field_name@) is None && e@ == SchemaErrorModel::UnknownField(
                field_name@,
            ),
        },
{
    match schema.get_field(field_name) {
        Some(field) => {
            let word = match schema.get_field_entry(field).field_type {
                FieldType::Text => "text",
                FieldType::U64 => "u64",
                FieldType::I64 => "i64",
                FieldType::F64 => "f64",
                FieldType::Bool => "bool",
                FieldType::Date => "date",
                FieldType::Facet => "facet",
                FieldType::Bytes => "bytes",
                FieldType::JsonObject => "json",
                FieldType::IpAddr => "ip_addr",
            };
            Ok(copy_text(word))
        },
        None => Err(SchemaError::UnknownField(copy_text(field_name))),
    }
}

/// What is said of a schema that has fields.
pub open spec fn valid_message(count: nat) -> Seq<char> {
    "Schema is valid with "@ + decimal_of(count) + " fields"@
}

/// Checks that a schema has a field, and says how many it has.
pub fn schema_validate(schema: &Schema) -> (r: Result<String, SchemaError>)
    ensures
        match r {
            Ok(message) => schema@.len() > 0 && message@ == valid_message(schema@.len()),
            Err(e) => schema@.len() == 0 && e@ == SchemaErrorModel::EmptySchema,
        },
{
    let n = schema.len();
    if n == 0 {
        return Err(SchemaError::EmptySchema);
    }
    let mut out: Vec<char> = Vec::new();
    push_text(&mut out, "Schema is valid with ");
    push_decimal(&mut out, n as u64);
    push_text(&mut out, " fields");
    proof {
        assert(out@ =~= valid_message(n as nat));
    }
    Ok(string_of(&out))
}

} // verus!
