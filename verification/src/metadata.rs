//! The metadata that goes with a request to a telemetry collector, as tonic
//! keeps it.

use std::str::FromStr;

use axum::http::header::{HeaderName, HeaderValue};
use tonic::metadata::errors::{InvalidMetadataKey, InvalidMetadataValue};
use tonic::metadata::{AsciiMetadataKey, AsciiMetadataValue, MetadataMap};
use vstd::prelude::*;

verus! {

/// tonic's collection of metadata.
#[verifier::external_type_specification]
#[verifier::external_body]
pub struct ExMetadataMap(MetadataMap);

/// tonic's error for text that is no metadata key.
#[verifier::external_type_specification]
#[verifier::external_body]
pub struct ExInvalidMetadataKey(InvalidMetadataKey);

/// tonic's error for text that is no metadata value.
#[verifier::external_type_specification]
#[verifier::external_body]
pub struct ExInvalidMetadataValue(InvalidMetadataValue);

/// What a collection of metadata holds: each key with its values, in the order
/// in which they were added.
pub uninterp spec fn metadata_entries(map: MetadataMap) -> Map<Seq<char>, Seq<Seq<char>>>;

/// A collection of metadata with fewer keys than this takes another. The table
/// under it has at most 32768 slots; with a fifth of them taken, keys can be
/// spread so badly that it asks for more.
pub const ALWAYS_FITS: usize = 6554;

/// A collection of metadata with as many keys takes none: three quarters of the
/// slots of the largest table.
pub const NEVER_FITS: usize = 24576;

/// The characters of a metadata key in lower case.
pub open spec fn is_key_char(c: char) -> bool {
    ||| 'a' <= c && c <= 'z'
    ||| '0' <= c && c <= '9'
    ||| '!' <= c && c <= '\''
    ||| c == '*' || c == '+' || c == '-' || c == '.'
    ||| c == '^' || c == '_' || c == '`' || c == '|' || c == '~'
}

/// A metadata key in lower case: at least one character, fewer than 65536, and
/// none that a key cannot have.
pub open spec fn is_key_text(name: Seq<char>) -> bool {
    &&& 0 < name.len() < 65536
    &&& forall|i: int| 0 <= i < name.len() ==> is_key_char(#[trigger] name[i])
}

/// The ending that marks the key of a binary value.
pub open spec fn has_binary_ending(name: Seq<char>) -> bool {
    name.len() >= 4 && name.skip(name.len() - 4) == "-bin"@
}

/// No letter from `A` to `Z`.
pub open spec fn has_no_capital(name: Seq<char>) -> bool {
    forall|i: int| 0 <= i < name.len() ==> !('A' <= #[trigger] name[i] && name[i] <= 'Z')
}

/// The key of a value that is text.
pub open spec fn is_text_key(name: Seq<char>) -> bool {
    is_key_text(name) && !has_binary_ending(name)
}

/// A metadata value: tabs, and whatever is no control character of ASCII.
pub open spec fn is_value_text(value: Seq<char>) -> bool {
    forall|i: int|
        0 <= i < value.len() ==> (#[trigger] value[i] == '\t' || value[i] >= ' ' && value[i]
            != '\x7f')
}

/// `MetadataMap::new` of tonic: a collection that holds nothing.
pub assume_specification[ MetadataMap::new ]() -> (map: MetadataMap)
    ensures
        metadata_entries(map) =~= Map::empty(),
;

/// `MetadataKey::from_str` of tonic for keys of text, on text without capitals:
/// it succeeds exactly on keys, and keeps their text. It panics on the key of a
/// binary value.
#[verifier::external_body]
pub(crate) fn metadata_key(name: &str) -> (key: Result<String, InvalidMetadataKey>)
    requires
        has_no_capital(name@),
        !has_binary_ending(name@),
    ensures
        match key {
            Ok(text) => is_key_text(name@) && text@ == name@,
            Err(_) => !is_key_text(name@),
        },
{
    AsciiMetadataKey::from_str(name).map(|key| key.as_str().to_owned())
}

/// `MetadataValue::from_str` of tonic for text: it succeeds exactly on values.
#[verifier::external_body]
pub(crate) fn metadata_value(value: &str) -> (checked: Result<(), InvalidMetadataValue>)
    ensures
        checked is Ok <==> is_value_text(value@),
{
    <AsciiMetadataValue as FromStr>::from_str(value).map(|_| ())
}

/// `HeaderMap::try_insert` of http, on the table under tonic's collection
/// (`MetadataMap::into_headers` and `from_headers` only unwrap and wrap it), as
/// `MetadataMap::insert` calls it: the key has this value from now on, and no
/// other; the rest of the collection stays. Where the table would have to grow
/// beyond its largest size, nothing is inserted. That never happens below
/// [`ALWAYS_FITS`] keys and always does at [`NEVER_FITS`]. Between them it
/// depends on how the table has spread its keys, some tables by a hash that is
/// seeded at random: nothing is said of it there.
#[verifier::external_body]
pub(crate) fn metadata_insert(map: MetadataMap, key: &str, value: &str) -> (inserted: Option<
    MetadataMap,
>)
    requires
        is_text_key(key@),
        is_value_text(value@),
    ensures
        match inserted {
            Some(now) => metadata_entries(now) == metadata_entries(map).insert(key@, seq![value@])
                && metadata_entries(map).dom().len() < NEVER_FITS,
            None => metadata_entries(map).dom().len() >= ALWAYS_FITS,
        },
{
    let name = HeaderName::from_bytes(key.as_bytes()).unwrap();
    let value = HeaderValue::from_str(value).unwrap();
    let mut headers = map.into_headers();
    match headers.try_insert(name, value) {
        Ok(_) => Some(MetadataMap::from_headers(headers)),
        Err(_) => None,
    }
}

} // verus!
