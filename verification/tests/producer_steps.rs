use std::io::Write;
use tmdb_ingest::client::{FetchError, HttpResponse, TmdbClient};
use tmdb_ingest::export::CalendarDate;
use tmdb_ingest::json::DecodeError;
use tmdb_ingest::pipeline::{FetchAction, FetchEvent, PipelineError, Producer, CHANNEL_CAPACITY};
use tmdb_ingest::records::{Cast, CastMember, MovieDetails, Packet};

fn gzip(content: &[u8]) -> Vec<u8> {
    let mut encoder = flate2::write::GzEncoder::new(Vec::new(), flate2::Compression::default());
    encoder.write_all(content).unwrap();
    encoder.finish().unwrap()
}

fn ok(body: &[u8]) -> FetchEvent {
    FetchEvent::Response(HttpResponse { status: 200, body: body.to_vec() })
}

fn listing(text: &[u8]) -> FetchEvent {
    FetchEvent::Response(HttpResponse { status: 200, body: gzip(text) })
}

fn started() -> Producer {
    let client = match TmdbClient::new("token") {
        Ok(client) => client,
        Err(error) => panic!("no client: {:?}", error),
    };
    let (producer, action) = Producer::new(client, CalendarDate { year: 2024, month: 7, day: 15 });
    assert_eq!(
        action,
        FetchAction::Fetch("http://files.tmdb.org/p/exports/movie_ids_07_14_2024.json.gz".to_string())
    );
    producer
}

fn details_body(id: i32, title: &str) -> Vec<u8> {
    format!(
        "{{\"id\":{},\"original_title\":\"{}\",\"release_date\":\"2000-01-01\",\"runtime\":100}}",
        id, title
    )
    .into_bytes()
}

fn packet(id: i32, title: &str, cast: Vec<CastMember>) -> Packet {
    Packet {
        movie_details: MovieDetails {
            id,
            original_title: title.to_string(),
            release_date: "2000-01-01".to_string(),
            runtime: 100,
        },
        cast: Cast { cast },
    }
}

#[test]
fn the_channel_holds_fifty_packets() {
    assert_eq!(CHANNEL_CAPACITY, 50);
}

#[test]
fn a_run_on_the_first_of_a_month_asks_for_the_export_of_that_day() {
    let client = match TmdbClient::new("token") {
        Ok(client) => client,
        Err(error) => panic!("no client: {:?}", error),
    };
    let (_, action) = Producer::new(client, CalendarDate { year: 2024, month: 8, day: 1 });
    assert_eq!(
        action,
        FetchAction::Fetch("http://files.tmdb.org/p/exports/movie_ids_08_1_2024.json.gz".to_string())
    );
}

#[test]
fn an_empty_export_ends_the_run() {
    let mut producer = started();
    assert_eq!(producer.step(listing(b"")), FetchAction::Finish);
    assert_eq!(producer.total(), 0);
    assert_eq!(producer.sent(), 0);
    assert_eq!(producer.step(FetchEvent::Sent), FetchAction::Finish);
}

#[test]
fn each_entry_is_fetched_and_sent_in_the_order_of_the_export() {
    let mut producer = started();
    assert_eq!(
        producer.step(listing(b"{\"id\":603}\n{\"id\":550}\n")),
        FetchAction::Fetch("https://api.themoviedb.org/3/movie/603".to_string())
    );
    assert_eq!(producer.total(), 2);
    assert_eq!(producer.sent(), 0);
    assert_eq!(
        producer.step(ok(&details_body(603, "The Matrix"))),
        FetchAction::Fetch("https://api.themoviedb.org/3/movie/603/credits".to_string())
    );
    assert_eq!(
        producer.step(ok(b"{\"cast\":[{\"id\":6384,\"name\":\"Keanu Reeves\",\"character\":\"Neo\"}]}")),
        FetchAction::Send(packet(
            603,
            "The Matrix",
            vec![CastMember {
                id: 6384,
                name: "Keanu Reeves".to_string(),
                character: "Neo".to_string(),
            }]
        ))
    );
    assert_eq!(producer.sent(), 0);
    assert_eq!(
        producer.step(FetchEvent::Sent),
        FetchAction::Fetch("https://api.themoviedb.org/3/movie/550".to_string())
    );
    assert_eq!(producer.sent(), 1);
    assert_eq!(
        producer.step(ok(&details_body(550, "Fight Club"))),
        FetchAction::Fetch("https://api.themoviedb.org/3/movie/550/credits".to_string())
    );
    assert_eq!(
        producer.step(ok(b"{\"cast\":[]}")),
        FetchAction::Send(packet(550, "Fight Club", vec![]))
    );
    assert_eq!(producer.step(FetchEvent::Sent), FetchAction::Finish);
    assert_eq!(producer.sent(), 2);
    assert_eq!(producer.total(), 2);
}

#[test]
fn a_bad_export_stops_the_run() {
    let mut producer = started();
    assert_eq!(
        producer.step(ok(b"{\"id\":603}\n")),
        FetchAction::Stop(PipelineError::Fetch(FetchError::Gzip))
    );
    assert_eq!(
        producer.step(listing(b"{\"id\":603}\n")),
        FetchAction::Stop(PipelineError::Fetch(FetchError::Gzip))
    );

    let mut producer = started();
    assert_eq!(
        producer.step(FetchEvent::Response(HttpResponse { status: 403, body: Vec::new() })),
        FetchAction::Stop(PipelineError::Fetch(FetchError::Status(403)))
    );

    let mut producer = started();
    assert_eq!(
        producer.step(listing(b"{\"id\":603}\nx\n")),
        FetchAction::Stop(PipelineError::Fetch(FetchError::Line {
            index: 1,
            error: DecodeError::Syntax
        }))
    );
    assert_eq!(producer.total(), 0);
}

#[test]
fn one_bad_record_stops_the_run() {
    let mut producer = started();
    producer.step(listing(b"{\"id\":603}\n{\"id\":550}\n"));
    assert_eq!(
        producer.step(ok(b"{\"id\":603}")),
        FetchAction::Stop(PipelineError::Fetch(FetchError::Body(DecodeError::Shape)))
    );
    assert_eq!(
        producer.step(ok(&details_body(603, "The Matrix"))),
        FetchAction::Stop(PipelineError::Fetch(FetchError::Body(DecodeError::Shape)))
    );

    let mut producer = started();
    producer.step(listing(b"{\"id\":603}\n"));
    producer.step(ok(&details_body(603, "The Matrix")));
    assert_eq!(
        producer.step(FetchEvent::Response(HttpResponse { status: 500, body: Vec::new() })),
        FetchAction::Stop(PipelineError::Fetch(FetchError::Status(500)))
    );
}

#[test]
fn a_request_without_response_stops_the_run() {
    let mut producer = started();
    assert_eq!(
        producer.step(FetchEvent::TransportFailed),
        FetchAction::Stop(PipelineError::Transport)
    );
    let mut producer = started();
    producer.step(listing(b"{\"id\":603}\n"));
    assert_eq!(
        producer.step(FetchEvent::TransportFailed),
        FetchAction::Stop(PipelineError::Transport)
    );
    let mut producer = started();
    producer.step(listing(b"{\"id\":603}\n"));
    producer.step(ok(&details_body(603, "The Matrix")));
    assert_eq!(
        producer.step(FetchEvent::TransportFailed),
        FetchAction::Stop(PipelineError::Transport)
    );
}

#[test]
fn a_closed_channel_stops_the_run() {
    let mut producer = started();
    producer.step(listing(b"{\"id\":603}\n{\"id\":550}\n"));
    producer.step(ok(&details_body(603, "The Matrix")));
    producer.step(ok(b"{\"cast\":[]}"));
    assert_eq!(
        producer.step(FetchEvent::SendFailed),
        FetchAction::Stop(PipelineError::ChannelClosed)
    );
    assert_eq!(producer.sent(), 0);
    assert_eq!(producer.step(FetchEvent::Sent), FetchAction::Stop(PipelineError::ChannelClosed));
}

#[test]
fn events_that_answer_nothing_stop_the_run() {
    let mut producer = started();
    assert_eq!(producer.step(FetchEvent::Sent), FetchAction::Stop(PipelineError::Unexpected));
    let mut producer = started();
    producer.step(listing(b"{\"id\":603}\n"));
    assert_eq!(producer.step(FetchEvent::SendFailed), FetchAction::Stop(PipelineError::Unexpected));
    let mut producer = started();
    producer.step(listing(b"{\"id\":603}\n"));
    producer.step(ok(&details_body(603, "The Matrix")));
    producer.step(ok(b"{\"cast\":[]}"));
    assert_eq!(
        producer.step(ok(b"{\"cast\":[]}")),
        FetchAction::Stop(PipelineError::Unexpected)
    );
}

#[test]
fn the_producer_reads_with_the_client_it_was_given() {
    let producer = started();
    assert_eq!(producer.client().authorization().as_bytes(), b"Bearer token");
}
