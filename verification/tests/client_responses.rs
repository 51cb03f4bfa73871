use std::io::Write;
use tmdb_ingest::client::{parse_movie_ids, ClientError, FetchError, HttpResponse, TmdbClient};
use tmdb_ingest::json::DecodeError;
use tmdb_ingest::records::{Cast, CastMember, MovieDetails, MovieIdEntry};

fn gzip(content: &[u8]) -> Vec<u8> {
    let mut encoder = flate2::write::GzEncoder::new(Vec::new(), flate2::Compression::default());
    encoder.write_all(content).unwrap();
    encoder.finish().unwrap()
}

fn client() -> TmdbClient {
    match TmdbClient::new("token") {
        Ok(client) => client,
        Err(error) => panic!("no client: {:?}", error),
    }
}

fn ids(entries: &[u64]) -> Vec<MovieIdEntry> {
    entries.iter().map(|id| MovieIdEntry { id: *id }).collect()
}

#[test]
fn the_authorization_header_is_the_bearer_token_and_sensitive() {
    let client = match TmdbClient::new("abc.DEF-123") {
        Ok(client) => client,
        Err(error) => panic!("no client: {:?}", error),
    };
    assert_eq!(client.authorization().as_bytes(), b"Bearer abc.DEF-123");
    assert!(client.authorization().is_sensitive());
}

#[test]
fn a_token_may_hold_tabs_and_bytes_above_ascii() {
    let client = match TmdbClient::new("a\tb\u{e9}") {
        Ok(client) => client,
        Err(error) => panic!("no client: {:?}", error),
    };
    assert_eq!(client.authorization().as_bytes(), "Bearer a\tb\u{e9}".as_bytes());
    assert!(TmdbClient::new("").is_ok());
}

#[test]
fn a_token_with_a_control_character_is_refused() {
    assert!(matches!(TmdbClient::new("abc\n"), Err(ClientError::InvalidToken)));
    assert!(matches!(TmdbClient::new("a\rb"), Err(ClientError::InvalidToken)));
    assert!(matches!(TmdbClient::new("\u{0}"), Err(ClientError::InvalidToken)));
    assert!(matches!(TmdbClient::new("a\u{7f}"), Err(ClientError::InvalidToken)));
    assert!(matches!(TmdbClient::new("a\u{1f}"), Err(ClientError::InvalidToken)));
}

#[test]
fn an_export_gives_one_entry_per_line_in_order() {
    let text = b"{\"id\":3}\n{\"id\":1}\n{\"id\":2}\n";
    assert_eq!(parse_movie_ids(text), Ok(ids(&[3, 1, 2])));
    let unterminated = b"{\"id\":3}\n{\"id\":1}";
    assert_eq!(parse_movie_ids(unterminated), Ok(ids(&[3, 1])));
    let windows = b"{\"id\":3}\r\n{\"id\":3}\r\n";
    assert_eq!(parse_movie_ids(windows), Ok(ids(&[3, 3])));
}

#[test]
fn an_empty_export_has_no_entry() {
    assert_eq!(parse_movie_ids(b""), Ok(vec![]));
}

#[test]
fn a_thousand_lines_give_a_thousand_entries() {
    let mut text = Vec::new();
    let mut expected = Vec::new();
    for i in 0..1000u64 {
        let id = (i * 7919) % 1000;
        text.extend_from_slice(format!("{{\"adult\":false,\"id\":{},\"popularity\":0.6}}\n", id).as_bytes());
        expected.push(MovieIdEntry { id });
    }
    assert_eq!(parse_movie_ids(&text), Ok(expected));
}

#[test]
fn the_first_line_that_is_no_entry_is_reported() {
    let text = b"{\"id\":3}\n\n{\"id\":2}\nrubbish\n";
    assert_eq!(
        parse_movie_ids(text),
        Err(FetchError::Line { index: 1, error: DecodeError::Syntax })
    );
    let text = b"{\"id\":3}\n{\"id\":4}\n{\"name\":2}\nrubbish\n";
    assert_eq!(
        parse_movie_ids(text),
        Err(FetchError::Line { index: 2, error: DecodeError::Shape })
    );
    assert_eq!(
        parse_movie_ids(b"\n"),
        Err(FetchError::Line { index: 0, error: DecodeError::Syntax })
    );
}

#[test]
fn a_json_array_is_no_export() {
    assert_eq!(
        parse_movie_ids(b"[{\"id\":3},{\"id\":4}]"),
        Err(FetchError::Line { index: 0, error: DecodeError::Shape })
    );
}

#[test]
fn the_export_response_is_unpacked_and_read() {
    let response = HttpResponse { status: 200, body: gzip(b"{\"id\":11}\n{\"id\":12}\n") };
    assert_eq!(client().load_movie_ids(&response), Ok(ids(&[11, 12])));
}

#[test]
fn the_export_response_must_be_a_success() {
    let body = gzip(b"{\"id\":11}\n");
    for status in [404u16, 500, 301, 199, 300] {
        let response = HttpResponse { status, body: body.clone() };
        assert_eq!(client().load_movie_ids(&response), Err(FetchError::Status(status)));
    }
}

#[test]
fn the_export_response_must_be_gzip() {
    let response = HttpResponse { status: 200, body: b"{\"id\":11}\n".to_vec() };
    assert_eq!(client().load_movie_ids(&response), Err(FetchError::Gzip));
}

#[test]
fn a_bad_line_in_the_export_response_gives_no_entries() {
    let response = HttpResponse { status: 200, body: gzip(b"{\"id\":11}\n{\"id\":}\n{\"id\":12}\n") };
    assert_eq!(
        client().load_movie_ids(&response),
        Err(FetchError::Line { index: 1, error: DecodeError::Syntax })
    );
}

#[test]
fn a_details_response_gives_the_details() {
    let response = HttpResponse {
        status: 200,
        body: br#"{"id":550,"original_title":"Fight Club","release_date":"1999-10-15","runtime":139}"#.to_vec(),
    };
    assert_eq!(
        client().movie(&response),
        Ok(MovieDetails {
            id: 550,
            original_title: "Fight Club".to_string(),
            release_date: "1999-10-15".to_string(),
            runtime: 139,
        })
    );
}

#[test]
fn a_details_response_fails_on_its_status_first() {
    let response = HttpResponse { status: 401, body: b"not even json".to_vec() };
    assert_eq!(client().movie(&response), Err(FetchError::Status(401)));
    let response = HttpResponse { status: 200, body: b"not even json".to_vec() };
    assert_eq!(client().movie(&response), Err(FetchError::Body(DecodeError::Syntax)));
    let response = HttpResponse { status: 200, body: b"{\"id\":1}".to_vec() };
    assert_eq!(client().movie(&response), Err(FetchError::Body(DecodeError::Shape)));
}

#[test]
fn a_credits_response_gives_the_cast() {
    let response = HttpResponse {
        status: 200,
        body: br#"{"id":550,"cast":[{"id":819,"name":"Edward Norton","character":"The Narrator"}]}"#.to_vec(),
    };
    assert_eq!(
        client().cast(&response),
        Ok(Cast {
            cast: vec![CastMember {
                id: 819,
                name: "Edward Norton".to_string(),
                character: "The Narrator".to_string(),
            }],
        })
    );
    let response = HttpResponse { status: 503, body: Vec::new() };
    assert_eq!(client().cast(&response), Err(FetchError::Status(503)));
    let response = HttpResponse { status: 200, body: b"{}".to_vec() };
    assert_eq!(client().cast(&response), Err(FetchError::Body(DecodeError::Shape)));
    let response = HttpResponse { status: 200, body: Vec::new() };
    assert_eq!(client().cast(&response), Err(FetchError::Body(DecodeError::Syntax)));
}
