use tmdb_ingest::json::{
    decode_cast, decode_cast_member, decode_movie_details, decode_movie_id, parse_cast,
    parse_movie_details, parse_movie_id, DecodeError,
};
use tmdb_ingest::records::{Cast, CastMember, MovieDetails, MovieIdEntry};

fn document(text: &str) -> serde_json::Value {
    serde_json::from_str(text).unwrap()
}

#[test]
fn an_export_line_gives_its_id() {
    let line = br#"{"adult":false,"id":3924,"original_title":"Blondie","popularity":2.4053,"video":false}"#;
    assert_eq!(parse_movie_id(line), Ok(MovieIdEntry { id: 3924 }));
}

#[test]
fn an_id_may_be_as_large_as_64_bits_hold() {
    assert_eq!(
        parse_movie_id(br#"{"id":18446744073709551615}"#),
        Ok(MovieIdEntry { id: u64::MAX })
    );
    assert_eq!(parse_movie_id(br#"{"id":0}"#), Ok(MovieIdEntry { id: 0 }));
}

#[test]
fn a_line_that_is_no_json_is_a_syntax_error() {
    assert_eq!(parse_movie_id(b""), Err(DecodeError::Syntax));
    assert_eq!(parse_movie_id(b"   "), Err(DecodeError::Syntax));
    assert_eq!(parse_movie_id(b"{\"id\":1"), Err(DecodeError::Syntax));
    assert_eq!(parse_movie_id(b"{\"id\":1} x"), Err(DecodeError::Syntax));
    assert_eq!(parse_movie_id(b"{\"id\":1}{\"id\":2}"), Err(DecodeError::Syntax));
    assert_eq!(parse_movie_id(b"{\"t\":\"\xff\",\"id\":1}"), Err(DecodeError::Syntax));
}

#[test]
fn a_line_without_a_usable_id_is_a_shape_error() {
    assert_eq!(parse_movie_id(b"{}"), Err(DecodeError::Shape));
    assert_eq!(parse_movie_id(b"{\"id\":-1}"), Err(DecodeError::Shape));
    assert_eq!(parse_movie_id(b"{\"id\":1.5}"), Err(DecodeError::Shape));
    assert_eq!(parse_movie_id(b"{\"id\":\"1\"}"), Err(DecodeError::Shape));
    assert_eq!(parse_movie_id(b"{\"id\":null}"), Err(DecodeError::Shape));
    assert_eq!(parse_movie_id(b"[1]"), Err(DecodeError::Shape));
    assert_eq!(parse_movie_id(b"7"), Err(DecodeError::Shape));
    assert_eq!(parse_movie_id(b"{\"ID\":1}"), Err(DecodeError::Shape));
}

#[test]
fn surrounding_white_space_does_not_matter() {
    assert_eq!(parse_movie_id(b" {\"id\": 12}\r"), Ok(MovieIdEntry { id: 12 }));
}

#[test]
fn movie_details_are_read_by_member_name() {
    let body = br#"{"runtime":136,"id":603,"release_date":"1999-03-31","original_title":"The Matrix","overview":"..."}"#;
    assert_eq!(
        parse_movie_details(body),
        Ok(MovieDetails {
            id: 603,
            original_title: "The Matrix".to_string(),
            release_date: "1999-03-31".to_string(),
            runtime: 136,
        })
    );
}

#[test]
fn movie_details_need_every_member() {
    assert_eq!(
        parse_movie_details(br#"{"id":603,"release_date":"1999-03-31","original_title":"The Matrix"}"#),
        Err(DecodeError::Shape)
    );
    assert_eq!(
        parse_movie_details(br#"{"id":603,"release_date":"1999-03-31","runtime":136}"#),
        Err(DecodeError::Shape)
    );
    assert_eq!(
        parse_movie_details(br#"{"id":603,"original_title":"The Matrix","runtime":136}"#),
        Err(DecodeError::Shape)
    );
    assert_eq!(
        parse_movie_details(br#"{"release_date":"1999-03-31","original_title":"The Matrix","runtime":136}"#),
        Err(DecodeError::Shape)
    );
    assert_eq!(
        parse_movie_details(br#"{"id":603,"release_date":"1999-03-31","original_title":"The Matrix","runtime":null}"#),
        Err(DecodeError::Shape)
    );
    assert_eq!(parse_movie_details(b"not json"), Err(DecodeError::Syntax));
}

#[test]
fn integers_must_fit_32_signed_bits() {
    let fits = br#"{"id":2147483647,"release_date":"","original_title":"","runtime":-2147483648}"#;
    assert_eq!(
        parse_movie_details(fits),
        Ok(MovieDetails {
            id: i32::MAX,
            original_title: String::new(),
            release_date: String::new(),
            runtime: i32::MIN,
        })
    );
    let too_large = br#"{"id":2147483648,"release_date":"","original_title":"","runtime":1}"#;
    assert_eq!(parse_movie_details(too_large), Err(DecodeError::Shape));
    let too_small = br#"{"id":1,"release_date":"","original_title":"","runtime":-2147483649}"#;
    assert_eq!(parse_movie_details(too_small), Err(DecodeError::Shape));
    let beyond_64_bits = br#"{"id":18446744073709551615,"release_date":"","original_title":"","runtime":1}"#;
    assert_eq!(parse_movie_details(beyond_64_bits), Err(DecodeError::Shape));
}

#[test]
fn a_cast_keeps_the_order_of_the_credits() {
    let body = br#"{"id":603,"cast":[{"id":6384,"name":"Keanu Reeves","character":"Neo","order":0},{"id":2975,"name":"Laurence Fishburne","character":"Morpheus"}],"crew":[]}"#;
    assert_eq!(
        parse_cast(body),
        Ok(Cast {
            cast: vec![
                CastMember {
                    id: 6384,
                    name: "Keanu Reeves".to_string(),
                    character: "Neo".to_string(),
                },
                CastMember {
                    id: 2975,
                    name: "Laurence Fishburne".to_string(),
                    character: "Morpheus".to_string(),
                },
            ],
        })
    );
}

#[test]
fn a_cast_may_be_empty() {
    assert_eq!(parse_cast(br#"{"cast":[]}"#), Ok(Cast { cast: vec![] }));
}

#[test]
fn a_cast_with_one_unusable_member_is_refused_whole() {
    let body = br#"{"cast":[{"id":1,"name":"A","character":"X"},{"id":2,"name":"B"}]}"#;
    assert_eq!(parse_cast(body), Err(DecodeError::Shape));
    assert_eq!(parse_cast(br#"{"cast":{}}"#), Err(DecodeError::Shape));
    assert_eq!(parse_cast(br#"{"crew":[]}"#), Err(DecodeError::Shape));
    assert_eq!(parse_cast(br#"[]"#), Err(DecodeError::Shape));
    assert_eq!(parse_cast(br#"{"cast":[}"#), Err(DecodeError::Syntax));
}

#[test]
fn records_are_read_out_of_parsed_documents() {
    assert_eq!(
        decode_movie_id(&document(r#"{"id":5}"#)),
        Some(MovieIdEntry { id: 5 })
    );
    assert_eq!(decode_movie_id(&document(r#"{"id":"5"}"#)), None);
    assert_eq!(
        decode_movie_details(&document(
            r#"{"id":5,"original_title":"T","release_date":"2001-01-01","runtime":90}"#
        )),
        Some(MovieDetails {
            id: 5,
            original_title: "T".to_string(),
            release_date: "2001-01-01".to_string(),
            runtime: 90,
        })
    );
    assert_eq!(decode_movie_details(&document(r#"{"id":5}"#)), None);
    assert_eq!(
        decode_cast_member(&document(r#"{"id":9,"name":"N","character":"C"}"#)),
        Some(CastMember { id: 9, name: "N".to_string(), character: "C".to_string() })
    );
    assert_eq!(decode_cast_member(&document(r#"{"id":9,"name":"N","character":3}"#)), None);
    assert_eq!(
        decode_cast(&document(r#"{"cast":[{"id":9,"name":"N","character":"C"}]}"#)),
        Some(Cast {
            cast: vec![CastMember { id: 9, name: "N".to_string(), character: "C".to_string() }],
        })
    );
    assert_eq!(decode_cast(&document(r#"{"cast":[7]}"#)), None);
}

#[test]
fn texts_keep_their_characters() {
    let body = "{\"id\":1,\"original_title\":\"Am\u{e9}lie \\\"x\\\" \\u00e9\",\"release_date\":\"\",\"runtime\":2}";
    assert_eq!(
        parse_movie_details(body.as_bytes()),
        Ok(MovieDetails {
            id: 1,
            original_title: "Am\u{e9}lie \"x\" \u{e9}".to_string(),
            release_date: String::new(),
            runtime: 2,
        })
    );
}

#[test]
fn of_a_member_named_twice_the_last_counts() {
    assert_eq!(parse_movie_id(b"{\"id\":1,\"id\":2}"), Ok(MovieIdEntry { id: 2 }));
    assert_eq!(parse_movie_id(b"{\"id\":1,\"id\":\"x\"}"), Err(DecodeError::Shape));
}

#[test]
fn a_text_is_refused_for_a_part_that_the_record_does_not_need() {
    assert_eq!(parse_movie_id(b"{\"id\":1,\"t\":\"\\ud800\"}"), Err(DecodeError::Syntax));
    assert_eq!(parse_movie_id(b"{\"id\":1,\"p\":1e999}"), Err(DecodeError::Syntax));
}
