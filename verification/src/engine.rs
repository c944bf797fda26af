//! What the library has from other crates: facet paths and regular
//! expressions of the index engine, base64, RFC 3339 timestamps and JSON
//! text. Each item here is believed as stated, not proved.
use vstd::prelude::*;
use base64::Engine;

verus! {

/// Whether the index engine accepts `pattern` as a regular expression.
pub uninterp spec fn regex_valid(pattern: Seq<char>) -> bool;

/// `tantivy::query::RegexQuery::from_pattern`: compiles the pattern and
/// fails on one that is no regular expression of the engine. The field only
/// labels the query, so the outcome depends on the pattern alone.
#[verifier::external_body]
pub(crate) fn regex_compiles(pattern: &str) -> (ok: bool)
    ensures
        ok == regex_valid(pattern@),
{
    let field = tantivy::schema::Field::from_field_id(0);
    tantivy::query::RegexQuery::from_pattern(pattern, field).is_ok()
}

/// A path that starts at the root: it is not empty and begins with `/`.
pub open spec fn rooted(path: Seq<char>) -> bool {
    path.len() > 0 && path[0] == '/'
}

/// The encoded form of a facet path: its segments, unescaped, separated by
/// the null character.
pub uninterp spec fn facet_encoding(path: Seq<char>) -> Seq<char>;

/// `tantivy::schema::Facet::from_text`, then `Facet::encoded_str`: parses a
/// path whose segments are separated by `/`. It fails exactly on a path that
/// is empty or does not start with `/`.
#[verifier::external_body]
pub(crate) fn facet_encode(path: &str) -> (r: Option<String>)
    ensures
        match r {
            Some(e) => rooted(path@) && e@ == facet_encoding(path@),
            None => !rooted(path@),
        },
{
    match tantivy::schema::Facet::from_text(path) {
        Ok(facet) => Some(facet.encoded_str().to_string()),
        Err(_) => None,
    }
}

/// The path text of an encoded facet: `/` before each segment, and each
/// `/` or `\` inside a segment written as `\/`.
pub uninterp spec fn facet_path_of(encoded: Seq<char>) -> Seq<char>;

/// `tantivy::schema::Facet::from_encoded`, then the facet's `Display`: the
/// path text of a facet given by its encoded form. Decoding cannot fail on
/// the bytes of a string.
#[verifier::external_body]
pub(crate) fn facet_display(encoded: &str) -> (path: String)
    ensures
        path@ == facet_path_of(encoded@),
{
    match tantivy::schema::Facet::from_encoded(encoded.as_bytes().to_vec()) {
        Ok(facet) => facet.to_string(),
        Err(_) => String::new(),
    }
}

/// The bytes that a text in padded standard base64 denotes, if it is one.
pub uninterp spec fn base64_bytes(text: Seq<char>) -> Option<Seq<u8>>;

/// `base64::Engine::decode` of `base64::engine::general_purpose::STANDARD`.
#[verifier::external_body]
pub(crate) fn base64_decode(text: &str) -> (r: Option<Vec<u8>>)
    ensures
        match r {
            Some(b) => base64_bytes(text@) == Some(b@),
            None => base64_bytes(text@) is None,
        },
{
    base64::engine::general_purpose::STANDARD.decode(text).ok()
}

/// The padded standard base64 text of a byte sequence.
pub uninterp spec fn base64_text(bytes: Seq<u8>) -> Seq<char>;

/// `base64::Engine::encode` of `base64::engine::general_purpose::STANDARD`.
#[verifier::external_body]
pub(crate) fn base64_encode(bytes: &Vec<u8>) -> (text: String)
    ensures
        text@ == base64_text(bytes@),
{
    base64::engine::general_purpose::STANDARD.encode(bytes)
}

/// The seconds since the epoch that an RFC 3339 date-and-time denotes, if
/// the text is one.
pub uninterp spec fn rfc3339_seconds(text: Seq<char>) -> Option<i64>;

/// `chrono::DateTime::parse_from_rfc3339`, then `DateTime::timestamp`.
#[verifier::external_body]
pub(crate) fn parse_rfc3339(text: &str) -> (r: Option<i64>)
    ensures
        r == rfc3339_seconds(text@),
{
    match chrono::DateTime::parse_from_rfc3339(text) {
        Ok(moment) => Some(moment.timestamp()),
        Err(_) => None,
    }
}

/// `tantivy::tokenizer::NgramTokenizer::new`: refuses a smallest length of
/// zero and a smallest length above the largest, and nothing else.
#[verifier::external_body]
pub(crate) fn ngram_accepted(min_gram: usize, max_gram: usize, prefix_only: bool) -> (ok: bool)
    ensures
        ok == (0 < min_gram <= max_gram),
{
    tantivy::tokenizer::NgramTokenizer::new(min_gram, max_gram, prefix_only).is_ok()
}

/// Whether a pattern is a regular expression that a tokenizer can cut a
/// text by.
pub uninterp spec fn token_pattern_valid(pattern: Seq<char>) -> bool;

/// `tantivy::tokenizer::RegexTokenizer::new`: compiles the pattern and
/// fails on one that is no regular expression.
#[verifier::external_body]
pub(crate) fn token_pattern_compiles(pattern: &str) -> (ok: bool)
    ensures
        ok == token_pattern_valid(pattern@),
{
    tantivy::tokenizer::RegexTokenizer::new(pattern).is_ok()
}

/// Whether a text is the identifier of a segment.
pub uninterp spec fn segment_id_valid(text: Seq<char>) -> bool;

/// `tantivy::index::SegmentId::from_uuid_string`: reads the identifier of
/// a segment and fails on a text that is none.
#[verifier::external_body]
pub(crate) fn segment_id_parses(text: &str) -> (ok: bool)
    ensures
        ok == segment_id_valid(text@),
{
    tantivy::index::SegmentId::from_uuid_string(text).is_ok()
}

} // verus!
