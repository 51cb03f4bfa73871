//! Reading the pipeline's records out of JSON text.
//!
//! The JSON grammar is `serde_json`'s: this module parses with it and walks the
//! parsed document through its accessors. Which text is a document, and
//! what a parsed document holds, is known here only by name; which members a
//! record needs, of which type and in which range, is decided and verified
//! here.
//!
//! A text is read whole before a record is looked for in it. So a text is
//! refused where any part of it is no JSON that `serde_json` holds as a value,
//! also a part that the record does not need: an escape of half a surrogate
//! pair, a number beyond the range of floating point. Where an object names a
//! member twice, the last one counts. A record is an object: an array of the
//! members' values in their order is none.

use crate::records::{Cast, CastMember, CastMemberView, MovieDetails, MovieDetailsView, MovieIdEntry};
use vstd::prelude::*;

verus! {

/// `serde_json::Value`, a parsed JSON document or a part of one.
#[verifier::external_type_specification]
#[verifier::external_body]
pub struct ExJsonValue(serde_json::Value);

/// `serde_json::Error`, the reason why a text is no JSON document.
#[verifier::external_type_specification]
#[verifier::external_body]
pub struct ExJsonError(serde_json::Error);

/// What a JSON document holds. A number is an integer or it is not; of a
/// number that is no integer nothing more is kept.
pub enum JsonView {
    Null,
    Bool(bool),
    Integer(int),
    Real,
    Text(Seq<char>),
    Array(Seq<JsonView>),
    Object(Map<Seq<char>, JsonView>),
}

/// What `serde_json::from_slice` reads from `text`, if `text` is one JSON
/// document.
pub uninterp spec fn json_document(text: Seq<u8>) -> Option<JsonView>;

/// What a `serde_json::Value` holds.
pub uninterp spec fn json_view(value: serde_json::Value) -> JsonView;

impl JsonView {
    /// The member `key` of an object.
    pub open spec fn member(self, key: Seq<char>) -> Option<JsonView> {
        match self {
            JsonView::Object(members) => if members.dom().contains(key) {
                Some(members[key])
            } else {
                None
            },
            _ => None,
        }
    }

    /// The integer, where it fits 64 unsigned bits.
    pub open spec fn as_u64(self) -> Option<u64> {
        match self {
            JsonView::Integer(n) => if 0 <= n <= u64::MAX {
                Some(n as u64)
            } else {
                None
            },
            _ => None,
        }
    }

    /// The integer, where it fits 64 signed bits.
    pub open spec fn as_i64(self) -> Option<i64> {
        match self {
            JsonView::Integer(n) => if i64::MIN <= n <= i64::MAX {
                Some(n as i64)
            } else {
                None
            },
            _ => None,
        }
    }

    /// The integer, where it fits 32 signed bits.
    pub open spec fn as_i32(self) -> Option<i32> {
        match self {
            JsonView::Integer(n) => if i32::MIN <= n <= i32::MAX {
                Some(n as i32)
            } else {
                None
            },
            _ => None,
        }
    }

    /// The text of a string.
    pub open spec fn as_text(self) -> Option<Seq<char>> {
        match self {
            JsonView::Text(text) => Some(text),
            _ => None,
        }
    }

    /// The elements of an array.
    pub open spec fn as_items(self) -> Option<Seq<JsonView>> {
        match self {
            JsonView::Array(items) => Some(items),
            _ => None,
        }
    }
}

/// `serde_json::Value::as_u64`: the number that the value holds, where that
/// is an integer from 0 up to the largest of 64 unsigned bits.
pub assume_specification[ serde_json::Value::as_u64 ](value: &serde_json::Value) -> (r: Option<u64>)
    ensures
        r == json_view(*value).as_u64(),
;

/// `serde_json::Value::as_i64`: the number that the value holds, where that
/// is an integer within 64 signed bits.
pub assume_specification[ serde_json::Value::as_i64 ](value: &serde_json::Value) -> (r: Option<i64>)
    ensures
        r == json_view(*value).as_i64(),
;

/// `serde_json::Value::as_str`: the text that the value holds, where it is a
/// string.
pub assume_specification<'a>[ serde_json::Value::as_str ](value: &'a serde_json::Value) -> (r:
    Option<&'a str>)
    ensures
        match r {
            Some(text) => json_view(*value).as_text() == Some(text@),
            None => json_view(*value).as_text() is None,
        },
;

/// `serde_json::Value::as_array`: the elements that the value holds, where
/// it is an array.
pub assume_specification<'a>[ serde_json::Value::as_array ](value: &'a serde_json::Value) -> (r:
    Option<&'a Vec<serde_json::Value>>)
    ensures
        match r {
            Some(items) => json_view(*value).as_items() == Some(
                Seq::new(items@.len(), |i: int| json_view(items@[i])),
            ),
            None => json_view(*value).as_items() is None,
        },
;

/// `serde_json::from_slice` at `serde_json::Value`: believed to depend on the
/// text alone, and to refuse a text without a single byte.
#[verifier::external_body]
fn parse_document(text: &[u8]) -> (r: Result<serde_json::Value, serde_json::Error>)
    ensures
        match r {
            Ok(value) => json_document(text@) == Some(json_view(value)),
            Err(_) => json_document(text@) is None,
        },
        text@.len() == 0 ==> r is Err,
{
    serde_json::from_slice::<serde_json::Value>(text)
}

/// `serde_json::Value::get` with a text key: the member of that name, where
/// the value is an object that has one.
#[verifier::external_body]
fn member<'a>(value: &'a serde_json::Value, key: &str) -> (r: Option<&'a serde_json::Value>)
    ensures
        match r {
            Some(found) => json_view(*value).member(key@) == Some(json_view(*found)),
            None => json_view(*value).member(key@) is None,
        },
{
    value.get(key)
}

/// Why a text could not be read as a record.
#[derive(Debug, Clone, Copy, PartialEq, Eq, Structural)]
pub enum DecodeError {
    /// The text is not a JSON document.
    Syntax,
    /// The document is not an object with the members that the record needs,
    /// each of its type and in its range.
    Shape,
}

/// The non-negative integer member `key` of `document`.
pub open spec fn member_u64(document: JsonView, key: Seq<char>) -> Option<u64> {
    match document.member(key) {
        Some(found) => found.as_u64(),
        None => None,
    }
}

/// The 32-bit integer member `key` of `document`.
pub open spec fn member_i32(document: JsonView, key: Seq<char>) -> Option<i32> {
    match document.member(key) {
        Some(found) => found.as_i32(),
        None => None,
    }
}

/// The text member `key` of `document`.
pub open spec fn member_str(document: JsonView, key: Seq<char>) -> Option<Seq<char>> {
    match document.member(key) {
        Some(found) => found.as_text(),
        None => None,
    }
}

/// The export entry that `document` holds: an object with a non-negative
/// integer `id`. Other members are not looked at.
pub open spec fn movie_id_of(document: JsonView) -> Option<MovieIdEntry> {
    match member_u64(document, "id"@) {
        Some(id) => Some(MovieIdEntry { id }),
        None => None,
    }
}

/// The movie details that `document` holds: an object with the integers `id`
/// and `runtime` and the texts `original_title` and `release_date`.
pub open spec fn movie_details_of(document: JsonView) -> Option<MovieDetailsView> {
    if member_i32(document, "id"@) is Some && member_str(document, "original_title"@) is Some
        && member_str(document, "release_date"@) is Some && member_i32(document, "runtime"@)
        is Some {
        Some(
            MovieDetailsView {
                id: member_i32(document, "id"@)->0 as int,
                original_title: member_str(document, "original_title"@)->0,
                release_date: member_str(document, "release_date"@)->0,
                runtime: member_i32(document, "runtime"@)->0 as int,
            },
        )
    } else {
        None
    }
}

/// The cast member that `document` holds: an object with the integer `id`
/// and the texts `name` and `character`.
pub open spec fn cast_member_of(document: JsonView) -> Option<CastMemberView> {
    if member_i32(document, "id"@) is Some && member_str(document, "name"@) is Some && member_str(
        document,
        "character"@,
    ) is Some {
        Some(
            CastMemberView {
                id: member_i32(document, "id"@)->0 as int,
                name: member_str(document, "name"@)->0,
                character: member_str(document, "character"@)->0,
            },
        )
    } else {
        None
    }
}

/// The cast members that the elements of `items` hold, if each holds one.
pub open spec fn cast_members_of(items: Seq<JsonView>) -> Option<Seq<CastMemberView>> {
    if forall|i: int| 0 <= i < items.len() ==> cast_member_of(#[trigger] items[i]) is Some {
        Some(Seq::new(items.len(), |i: int| cast_member_of(items[i])->0))
    } else {
        None
    }
}

/// The cast that `document` holds: an object whose member `cast` is an array
/// of cast members, kept in the array's order.
pub open spec fn cast_of(document: JsonView) -> Option<Seq<CastMemberView>> {
    match document.member("cast"@) {
        Some(list) => match list.as_items() {
            Some(items) => cast_members_of(items),
            None => None,
        },
        None => None,
    }
}

fn read_u64(value: &serde_json::Value, key: &str) -> (r: Option<u64>)
    ensures
        r == member_u64(json_view(*value), key@),
{
    match member(value, key) {
        Some(found) => found.as_u64(),
        None => None,
    }
}

fn read_i32(value: &serde_json::Value, key: &str) -> (r: Option<i32>)
    ensures
        r == member_i32(json_view(*value), key@),
{
    match member(value, key) {
        Some(found) => match found.as_i64() {
            Some(n) => if -2147483648 <= n && n <= 2147483647 {
                Some(n as i32)
            } else {
                None
            },
            None => None,
        },
        None => None,
    }
}

fn read_string(value: &serde_json::Value, key: &str) -> (r: Option<String>)
    ensures
        match r {
            Some(text) => member_str(json_view(*value), key@) == Some(text@),
            None => member_str(json_view(*value), key@) is None,
        },
{
    match member(value, key) {
        Some(found) => match found.as_str() {
            Some(text) => Some(text.to_owned()),
            None => None,
        },
        None => None,
    }
}

/// Reads an export entry out of a parsed document.
pub fn decode_movie_id(value: &serde_json::Value) -> (r: Option<MovieIdEntry>)
    ensures
        r == movie_id_of(json_view(*value)),
{
    match read_u64(value, "id") {
        Some(id) => Some(MovieIdEntry { id }),
        None => None,
    }
}

/// Reads movie details out of a parsed document.
pub fn decode_movie_details(value: &serde_json::Value) -> (r: Option<MovieDetails>)
    ensures
        match r {
            Some(details) => movie_details_of(json_view(*value)) == Some(details@),
            None => movie_details_of(json_view(*value)) is None,
        },
{
    let id = read_i32(value, "id");
    let original_title = read_string(value, "original_title");
    let release_date = read_string(value, "release_date");
    let runtime = read_i32(value, "runtime");
    match (id, original_title, release_date, runtime) {
        (Some(id), Some(original_title), Some(release_date), Some(runtime)) => Some(
            MovieDetails { id, original_title, release_date, runtime },
        ),
        _ => None,
    }
}

/// Reads one cast member out of a parsed document.
pub fn decode_cast_member(value: &serde_json::Value) -> (r: Option<CastMember>)
    ensures
        match r {
            Some(person) => cast_member_of(json_view(*value)) == Some(person@),
            None => cast_member_of(json_view(*value)) is None,
        },
{
    let id = read_i32(value, "id");
    let name = read_string(value, "name");
    let character = read_string(value, "character");
    match (id, name, character) {
        (Some(id), Some(name), Some(character)) => Some(CastMember { id, name, character }),
        _ => None,
    }
}

/// Reads a cast out of a parsed document.
pub fn decode_cast(value: &serde_json::Value) -> (r: Option<Cast>)
    ensures
        match r {
            Some(cast) => cast_of(json_view(*value)) == Some(cast@),
            None => cast_of(json_view(*value)) is None,
        },
{
    let list = match member(value, "cast") {
        Some(list) => list,
        None => { return None; },
    };
    let items = match list.as_array() {
        Some(items) => items,
        None => { return None; },
    };
    let ghost found = Seq::new(items@.len(), |k: int| json_view(items@[k]));
    let mut members: Vec<CastMember> = Vec::new();
    let mut i: usize = 0;
    while i < items.len()
        invariant
            i <= items@.len(),
            members@.len() == i,
            json_view(*value).member("cast"@) == Some(json_view(*list)),
            json_view(*list).as_items() == Some(found),
            found.len() == items@.len(),
            forall|k: int| 0 <= k < items@.len() ==> #[trigger] found[k] == json_view(items@[k]),
            forall|k: int| 0 <= k < i ==> cast_member_of(#[trigger] found[k]) == Some(members@[k]@),
        decreases items@.len() - i,
    {
        match decode_cast_member(&items[i]) {
            Some(person) => { members.push(person); },
            None => {
                assert(cast_member_of(found[i as int]) is None);
                return None;
            },
        }
        i += 1;
    }
    let cast = Cast { cast: members };
    assert(cast@ =~= cast_members_of(found)->0);
    Some(cast)
}

/// What reading `text` as an export entry gives. A text without a single
/// byte is no document.
pub open spec fn movie_id_record(text: Seq<u8>) -> Result<MovieIdEntry, DecodeError> {
    if text.len() == 0 {
        Err(DecodeError::Syntax)
    } else {
        match json_document(text) {
            Some(value) => match movie_id_of(value) {
                Some(entry) => Ok(entry),
                None => Err(DecodeError::Shape),
            },
            None => Err(DecodeError::Syntax),
        }
    }
}

/// What reading `text` as movie details gives.
pub open spec fn movie_details_record(text: Seq<u8>) -> Result<MovieDetailsView, DecodeError> {
    match json_document(text) {
        Some(value) => match movie_details_of(value) {
            Some(details) => Ok(details),
            None => Err(DecodeError::Shape),
        },
        None => Err(DecodeError::Syntax),
    }
}

/// What reading `text` as a cast gives.
pub open spec fn cast_record(text: Seq<u8>) -> Result<Seq<CastMemberView>, DecodeError> {
    match json_document(text) {
        Some(value) => match cast_of(value) {
            Some(cast) => Ok(cast),
            None => Err(DecodeError::Shape),
        },
        None => Err(DecodeError::Syntax),
    }
}

/// Reads a text as an export entry.
pub fn parse_movie_id(text: &[u8]) -> (r: Result<MovieIdEntry, DecodeError>)
    ensures
        r == movie_id_record(text@),
{
    match parse_document(text) {
        Ok(value) => match decode_movie_id(&value) {
            Some(entry) => Ok(entry),
            None => Err(DecodeError::Shape),
        },
        Err(_) => Err(DecodeError::Syntax),
    }
}

/// Reads a text as movie details.
pub fn parse_movie_details(text: &[u8]) -> (r: Result<MovieDetails, DecodeError>)
    ensures
        match r {
            Ok(details) => movie_details_record(text@) == Ok::<MovieDetailsView, DecodeError>(
                details@,
            ),
            Err(e) => movie_details_record(text@) == Err::<MovieDetailsView, DecodeError>(e),
        },
{
    match parse_document(text) {
        Ok(value) => match decode_movie_details(&value) {
            Some(details) => Ok(details),
            None => Err(DecodeError::Shape),
        },
        Err(_) => Err(DecodeError::Syntax),
    }
}

/// Reads a text as a cast.
pub fn parse_cast(text: &[u8]) -> (r: Result<Cast, DecodeError>)
    ensures
        match r {
            Ok(cast) => cast_record(text@) == Ok::<Seq<CastMemberView>, DecodeError>(cast@),
            Err(e) => cast_record(text@) == Err::<Seq<CastMemberView>, DecodeError>(e),
        },
{
    match parse_document(text) {
        Ok(value) => match decode_cast(&value) {
            Some(cast) => Ok(cast),
            None => Err(DecodeError::Shape),
        },
        Err(_) => Err(DecodeError::Syntax),
    }
}

} // verus!
