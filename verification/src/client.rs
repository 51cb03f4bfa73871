//! The client of the movie database, without its transport.
//!
//! The client prepares what every request carries and reads what came back:
//! it is handed the status and the body of each response and turns them into
//! records, or says why it cannot.

use crate::export::{is_success, status_is_success};
use crate::gzip::{gunzip, gzip_content};
use crate::json::{
    cast_record, movie_details_record, movie_id_record, parse_cast, parse_movie_details,
    parse_movie_id, DecodeError,
};
use crate::lines::{lines, non_empty_line_count, split_lines};
use crate::records::{Cast, CastMemberView, MovieDetails, MovieDetailsView, MovieIdEntry};
use reqwest::header::{HeaderValue, InvalidHeaderValue};
use vstd::prelude::*;
use vstd::string::{StringExecFns, StringSliceAdditionalSpecFns};
use vstd::utf8::encode_utf8;

verus! {

/// `reqwest::header::HeaderValue`, the value of one HTTP header.
#[verifier::external_type_specification]
#[verifier::external_body]
pub struct ExHeaderValue(HeaderValue);

/// `reqwest::header::InvalidHeaderValue`, the refusal of a text as a header
/// value.
#[verifier::external_type_specification]
#[verifier::external_body]
pub struct ExInvalidHeaderValue(InvalidHeaderValue);

/// The bytes that a header value holds.
pub uninterp spec fn header_bytes(value: HeaderValue) -> Seq<u8>;

/// Whether a header value is marked as sensitive, to be kept out of logs.
pub uninterp spec fn header_sensitive(value: HeaderValue) -> bool;

/// A byte that may stand in a header value: the tab, and every byte from the
/// space on but the delete character.
pub open spec fn header_byte_ok(byte: u8) -> bool {
    byte >= 32 && byte != 127 || byte == 9
}

/// A text that can be a header value: each of its bytes may stand in one.
pub open spec fn header_text_ok(bytes: Seq<u8>) -> bool {
    forall|i: int| 0 <= i < bytes.len() ==> header_byte_ok(#[trigger] bytes[i])
}

/// `HeaderValue::from_str`: accepts a text exactly where each of its bytes may
/// stand in a header value; the value then holds the text's bytes and is not
/// marked as sensitive. This is what the function's code does: its
/// documentation speaks of visible ASCII only, its code lets the bytes from
/// 128 on pass as well.
pub assume_specification[ HeaderValue::from_str ](src: &str) -> (r: Result<
    HeaderValue,
    InvalidHeaderValue,
>)
    ensures
        match r {
            Ok(value) => header_text_ok(src.spec_bytes()) && header_bytes(value)
                == src.spec_bytes() && !header_sensitive(value),
            Err(_) => !header_text_ok(src.spec_bytes()),
        },
;

/// `HeaderValue::set_sensitive`: sets the mark and leaves the bytes.
pub assume_specification[ HeaderValue::set_sensitive ](value: &mut HeaderValue, val: bool)
    ensures
        header_bytes(*final(value)) == header_bytes(*old(value)),
        header_sensitive(*final(value)) == val,
;

/// The text of the authorization header for `token`.
pub open spec fn authorization_of(token: Seq<char>) -> Seq<char> {
    "Bearer "@ + token
}

/// Whether `token` can be sent: the authorization header made of it is a
/// text that can be a header value.
pub open spec fn token_ok(token: Seq<char>) -> bool {
    header_text_ok(encode_utf8(authorization_of(token)))
}

/// A character that may stand in a token: the tab, and every character from
/// the space on but the delete character.
pub open spec fn token_char_ok(c: char) -> bool {
    c as u32 >= 32 && c as u32 != 127 || c as u32 == 9
}

proof fn lemma_header_text_concat(a: Seq<u8>, b: Seq<u8>)
    ensures
        header_text_ok(a + b) <==> header_text_ok(a) && header_text_ok(b),
{
    let whole = a + b;
    if header_text_ok(whole) {
        assert forall|i: int| 0 <= i < a.len() implies header_byte_ok(#[trigger] a[i]) by {
            assert(whole[i] == a[i]);
        }
        assert forall|i: int| 0 <= i < b.len() implies header_byte_ok(#[trigger] b[i]) by {
            assert(whole[a.len() + i] == b[i]);
        }
    }
    if header_text_ok(a) && header_text_ok(b) {
        assert forall|i: int| 0 <= i < whole.len() implies header_byte_ok(#[trigger] whole[i]) by {
            if i < a.len() {
                assert(whole[i] == a[i]);
            } else {
                assert(whole[i] == b[i - a.len()]);
            }
        }
    }
}

proof fn lemma_high_bytes(x: u8)
    ensures
        (0xC0u8 | x) >= 0x80,
        (0xE0u8 | x) >= 0x80,
        (0xF0u8 | x) >= 0x80,
        (0x80u8 | x) >= 0x80,
{
    assert((0xC0u8 | x) >= 0x80) by (bit_vector);
    assert((0xE0u8 | x) >= 0x80) by (bit_vector);
    assert((0xF0u8 | x) >= 0x80) by (bit_vector);
    assert((0x80u8 | x) >= 0x80) by (bit_vector);
}

proof fn lemma_low_byte(scalar: u32)
    requires
        scalar <= 0x7F,
    ensures
        (scalar & 0x7F) as u8 == scalar,
{
    assert(scalar <= 0x7F ==> (scalar & 0x7F) == scalar) by (bit_vector);
}

proof fn lemma_encoded_char(c: char)
    ensures
        header_text_ok(vstd::utf8::encode_scalar(c as u32)) <==> token_char_ok(c),
{
    let scalar = c as u32;
    let bytes = vstd::utf8::encode_scalar(scalar);
    vstd::utf8::char_is_scalar(c);
    if vstd::utf8::has_width_1_encoding(scalar) {
        lemma_low_byte(scalar);
        assert(bytes[0] == scalar);
    } else {
        lemma_high_bytes(((scalar >> 6) & 0x1F) as u8);
        lemma_high_bytes(((scalar >> 12) & 0x0F) as u8);
        lemma_high_bytes(((scalar >> 18) & 0x7) as u8);
        lemma_high_bytes((scalar & 0x3F) as u8);
        lemma_high_bytes(((scalar >> 6) & 0x3F) as u8);
        lemma_high_bytes(((scalar >> 12) & 0x3F) as u8);
    }
}

proof fn lemma_encoded_text(chars: Seq<char>)
    ensures
        header_text_ok(encode_utf8(chars)) <==> forall|i: int|
            0 <= i < chars.len() ==> token_char_ok(#[trigger] chars[i]),
    decreases chars.len(),
{
    if chars.len() > 0 {
        let rest = chars.drop_first();
        lemma_encoded_char(chars[0]);
        lemma_encoded_text(rest);
        lemma_header_text_concat(vstd::utf8::encode_scalar(chars[0] as u32), encode_utf8(rest));
        if forall|i: int| 0 <= i < chars.len() ==> token_char_ok(#[trigger] chars[i]) {
            assert forall|i: int| 0 <= i < rest.len() implies token_char_ok(#[trigger] rest[i]) by {
                assert(rest[i] == chars[i + 1]);
            }
        }
        if header_text_ok(encode_utf8(chars)) {
            assert forall|i: int| 0 <= i < chars.len() implies token_char_ok(
                #[trigger] chars[i],
            ) by {
                if i > 0 {
                    assert(rest[i - 1] == chars[i]);
                }
            }
        }
    }
}

/// A token can be sent exactly where each of its characters is the tab or
/// comes from the space on and is not the delete character.
pub proof fn law_token_characters(token: Seq<char>)
    ensures
        token_ok(token) <==> forall|i: int|
            0 <= i < token.len() ==> token_char_ok(#[trigger] token[i]),
{
    reveal_strlit("Bearer ");
    let word = "Bearer "@;
    let text = authorization_of(token);
    lemma_encoded_text(text);
    if forall|i: int| 0 <= i < token.len() ==> token_char_ok(#[trigger] token[i]) {
        assert forall|i: int| 0 <= i < text.len() implies token_char_ok(#[trigger] text[i]) by {
            if i >= word.len() {
                assert(text[i] == token[i - word.len()]);
            }
        }
    }
    if token_ok(token) {
        assert forall|i: int| 0 <= i < token.len() implies token_char_ok(#[trigger] token[i]) by {
            assert(text[word.len() + i] == token[i]);
        }
    }
}

/// The status and the body of an HTTP response.
#[derive(Debug, PartialEq, Eq)]
pub struct HttpResponse {
    pub status: u16,
    pub body: Vec<u8>,
}

/// Why a client could not be made.
#[derive(Debug, Clone, Copy, PartialEq, Eq, Structural)]
pub enum ClientError {
    /// The token holds a byte that cannot stand in a header value.
    InvalidToken,
}

/// Why a response gave no record.
#[derive(Debug, Clone, Copy, PartialEq, Eq, Structural)]
pub enum FetchError {
    /// The response's status is not a success; the status is given.
    Status(u16),
    /// The body is not a gzip stream.
    Gzip,
    /// A line of the export is not an entry; `index` counts lines from 0.
    Line { index: usize, error: DecodeError },
    /// The body is not the record that was asked for.
    Body(DecodeError),
}

/// Line `i` of `found` is not an entry of the export.
pub open spec fn bad_line(found: Seq<Seq<u8>>, i: int) -> bool {
    0 <= i < found.len() && movie_id_record(found[i]) is Err
}

/// The first of the lines that is not an entry, if there is one.
pub open spec fn first_bad_line(found: Seq<Seq<u8>>) -> Option<int> {
    if exists|i: int| bad_line(found, i) {
        Some(choose|i: int| bad_line(found, i) && forall|j: int| 0 <= j < i ==> !bad_line(found, j))
    } else {
        None
    }
}

/// The entries of the export `text`: one for each line, in the order of the
/// lines; or, where a line is not an entry, the first such line and what is
/// wrong with it. A line without a byte is a line like any other, and no
/// entry: it is not passed over.
pub open spec fn entries_of(text: Seq<u8>) -> Result<Seq<MovieIdEntry>, FetchError> {
    let found = lines(text);
    match first_bad_line(found) {
        Some(i) => Err(
            FetchError::Line { index: i as usize, error: movie_id_record(found[i])->Err_0 },
        ),
        None => Ok(Seq::new(found.len(), |i: int| movie_id_record(found[i])->Ok_0)),
    }
}

/// What the response to the request for the identifier export gives: the
/// status must be a success and the body a gzip stream of the export's text.
pub open spec fn listing_of(status: u16, body: Seq<u8>) -> Result<Seq<MovieIdEntry>, FetchError> {
    if !is_success(status) {
        Err(FetchError::Status(status))
    } else {
        match gzip_content(body) {
            Some(text) => entries_of(text),
            None => Err(FetchError::Gzip),
        }
    }
}

/// What the response to the request for the details of a movie gives.
pub open spec fn details_of(status: u16, body: Seq<u8>) -> Result<MovieDetailsView, FetchError> {
    if !is_success(status) {
        Err(FetchError::Status(status))
    } else {
        match movie_details_record(body) {
            Ok(details) => Ok(details),
            Err(error) => Err(FetchError::Body(error)),
        }
    }
}

/// What the response to the request for the credits of a movie gives.
pub open spec fn credits_of(status: u16, body: Seq<u8>) -> Result<Seq<CastMemberView>, FetchError> {
    if !is_success(status) {
        Err(FetchError::Status(status))
    } else {
        match cast_record(body) {
            Ok(cast) => Ok(cast),
            Err(error) => Err(FetchError::Body(error)),
        }
    }
}

/// Every element of `s` satisfies `pred`, so filtering by it keeps `s`.
proof fn lemma_filter_keeps_all<A>(s: Seq<A>, pred: spec_fn(A) -> bool)
    requires
        forall|i: int| 0 <= i < s.len() ==> pred(#[trigger] s[i]),
    ensures
        s.filter(pred) == s,
    decreases s.len(),
{
    reveal(Seq::filter);
    if s.len() > 0 {
        lemma_filter_keeps_all(s.drop_last(), pred);
        assert(s.drop_last().push(s.last()) =~= s);
    }
}

/// An export that is read has exactly one entry for each of its non-empty
/// lines, in their order, and has no other line.
pub proof fn law_one_entry_per_line(text: Seq<u8>)
    requires
        entries_of(text) is Ok,
    ensures
        entries_of(text)->Ok_0.len() == non_empty_line_count(text),
        lines(text).len() == non_empty_line_count(text),
        forall|i: int|
            0 <= i < lines(text).len() ==> movie_id_record(#[trigger] lines(text)[i]) == Ok::<
                MovieIdEntry,
                DecodeError,
            >(entries_of(text)->Ok_0[i]),
{
    let found = lines(text);
    assert forall|i: int| 0 <= i < found.len() implies (#[trigger] found[i]).len() > 0
        && movie_id_record(found[i]) is Ok by {
        assert(!bad_line(found, i));
    }
    lemma_filter_keeps_all(found, |line: Seq<u8>| line.len() > 0);
}

/// Reads the text of an identifier export: one entry per line, in the order
/// of the lines. The first line that is not an entry is reported, and then
/// no entry is returned.
pub fn parse_movie_ids(text: &[u8]) -> (r: Result<Vec<MovieIdEntry>, FetchError>)
    ensures
        match r {
            Ok(entries) => entries_of(text@) == Ok::<Seq<MovieIdEntry>, FetchError>(entries@),
            Err(e) => entries_of(text@) == Err::<Seq<MovieIdEntry>, FetchError>(e),
        },
{
    let found = split_lines(text);
    let ghost all = lines(text@);
    let mut entries: Vec<MovieIdEntry> = Vec::new();
    let mut i: usize = 0;
    while i < found.len()
        invariant
            i <= found@.len(),
            all == lines(text@),
            found@.len() == all.len(),
            forall|k: int| 0 <= k < found@.len() ==> (#[trigger] found@[k])@ == all[k],
            entries@.len() == i,
            forall|k: int|
                0 <= k < i ==> movie_id_record(#[trigger] all[k]) == Ok::<MovieIdEntry, DecodeError>(
                    entries@[k],
                ),
        decreases found@.len() - i,
    {
        assert(found@[i as int]@ == all[i as int]);
        match parse_movie_id(found[i]) {
            Ok(entry) => {
                entries.push(entry);
            },
            Err(error) => {
                proof {
                    assert(bad_line(all, i as int));
                    let first = first_bad_line(all)->0;
                    assert(bad_line(all, first));
                    if first < i {
                        assert(movie_id_record(all[first]) is Ok);
                    }
                    if i < first {
                        assert(!bad_line(all, i as int));
                    }
                }
                return Err(FetchError::Line { index: i, error });
            },
        }
        i += 1;
    }
    proof {
        assert forall|k: int| !bad_line(all, k) by {
            if 0 <= k < all.len() {
                assert(movie_id_record(all[k]) is Ok);
            }
        }
        assert(entries@ =~= entries_of(text@)->Ok_0);
    }
    Ok(entries)
}

/// The client: the authorization header that each of its requests carries.
pub struct TmdbClient {
    authorization: HeaderValue,
}

impl TmdbClient {
    /// The authorization header of this client.
    pub closed spec fn header(self) -> HeaderValue {
        self.authorization
    }

    /// Makes a client for `token`. Its authorization header is the word
    /// `Bearer`, a space and the token, marked as sensitive. A token with a
    /// byte that cannot stand in a header value is refused.
    pub fn new(token: &str) -> (r: Result<TmdbClient, ClientError>)
        ensures
            match r {
                Ok(client) => {
                    &&& token_ok(token@)
                    &&& header_bytes(client.header()) == encode_utf8(authorization_of(token@))
                    &&& header_sensitive(client.header())
                },
                Err(ClientError::InvalidToken) => !token_ok(token@),
            },
    {
        let mut text = String::from_str("Bearer ");
        text.append(token);
        match HeaderValue::from_str(text.as_str()) {
            Ok(value) => {
                let mut authorization = value;
                authorization.set_sensitive(true);
                Ok(TmdbClient { authorization })
            },
            Err(_) => Err(ClientError::InvalidToken),
        }
    }

    /// The authorization header to attach to every request.
    pub fn authorization(&self) -> (value: &HeaderValue)
        ensures
            *value == self.header(),
    {
        &self.authorization
    }

    /// Reads the response to the request for the identifier export: a gzip
    /// stream of one entry per line.
    pub fn load_movie_ids(&self, response: &HttpResponse) -> (r: Result<
        Vec<MovieIdEntry>,
        FetchError,
    >)
        ensures
            match r {
                Ok(entries) => listing_of(response.status, response.body@) == Ok::<
                    Seq<MovieIdEntry>,
                    FetchError,
                >(entries@),
                Err(e) => listing_of(response.status, response.body@) == Err::<
                    Seq<MovieIdEntry>,
                    FetchError,
                >(e),
            },
    {
        if !status_is_success(response.status) {
            return Err(FetchError::Status(response.status));
        }
        match gunzip(response.body.as_slice()) {
            Some(text) => parse_movie_ids(text.as_slice()),
            None => Err(FetchError::Gzip),
        }
    }

    /// Reads the response to the request for the details of one movie.
    pub fn movie(&self, response: &HttpResponse) -> (r: Result<MovieDetails, FetchError>)
        ensures
            match r {
                Ok(details) => details_of(response.status, response.body@) == Ok::<
                    MovieDetailsView,
                    FetchError,
                >(details@),
                Err(e) => details_of(response.status, response.body@) == Err::<
                    MovieDetailsView,
                    FetchError,
                >(e),
            },
    {
        if !status_is_success(response.status) {
            return Err(FetchError::Status(response.status));
        }
        match parse_movie_details(response.body.as_slice()) {
            Ok(details) => Ok(details),
            Err(error) => Err(FetchError::Body(error)),
        }
    }

    /// Reads the response to the request for the credits of one movie.
    pub fn cast(&self, response: &HttpResponse) -> (r: Result<Cast, FetchError>)
        ensures
            match r {
                Ok(cast) => credits_of(response.status, response.body@) == Ok::<
                    Seq<CastMemberView>,
                    FetchError,
                >(cast@),
                Err(e) => credits_of(response.status, response.body@) == Err::<
                    Seq<CastMemberView>,
                    FetchError,
                >(e),
            },
    {
        if !status_is_success(response.status) {
            return Err(FetchError::Status(response.status));
        }
        match parse_cast(response.body.as_slice()) {
            Ok(cast) => Ok(cast),
            Err(error) => Err(FetchError::Body(error)),
        }
    }
}

} // verus!
