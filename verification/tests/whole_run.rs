use std::io::Write;
use tmdb_ingest::client::{HttpResponse, TmdbClient};
use tmdb_ingest::config::Config;
use tmdb_ingest::dry_run::write_packet;
use tmdb_ingest::export::CalendarDate;
use tmdb_ingest::pipeline::{FetchAction, FetchEvent, Producer, CHANNEL_CAPACITY};
use tmdb_ingest::records::{Cast, MovieDetails, Packet};
use tmdb_ingest::tables::{CastRow, MovieRow, PersonRow, Tables};
use tmdb_ingest::writer::{Action, DatabaseWriter, Event, WriterError};
use tmdb_ingest::records::CastMember;

fn gzip(content: &[u8]) -> Vec<u8> {
    let mut encoder = flate2::write::GzEncoder::new(Vec::new(), flate2::Compression::default());
    encoder.write_all(content).unwrap();
    encoder.finish().unwrap()
}

fn serve(url: &str) -> FetchEvent {
    let body: Vec<u8> = match url {
        "http://files.tmdb.org/p/exports/movie_ids_07_14_2024.json.gz" => gzip(
            b"{\"adult\":false,\"id\":603,\"original_title\":\"The Matrix\",\"popularity\":80.1}\n{\"adult\":false,\"id\":604,\"original_title\":\"The Matrix Reloaded\",\"popularity\":40.5}\n",
        ),
        "https://api.themoviedb.org/3/movie/603" => {
            br#"{"id":603,"original_title":"The Matrix","release_date":"1999-03-31","runtime":136}"#.to_vec()
        }
        "https://api.themoviedb.org/3/movie/603/credits" => {
            br#"{"id":603,"cast":[{"id":6384,"name":"Keanu Reeves","character":"Neo"},{"id":2975,"name":"Laurence Fishburne","character":"Morpheus"}]}"#.to_vec()
        }
        "https://api.themoviedb.org/3/movie/604" => {
            br#"{"id":604,"original_title":"The Matrix Reloaded","release_date":"2003-05-15","runtime":138}"#.to_vec()
        }
        "https://api.themoviedb.org/3/movie/604/credits" => {
            br#"{"id":604,"cast":[{"id":6384,"name":"Keanu Reeves","character":"Neo"},{"id":530,"name":"Carrie-Anne Moss","character":"Trinity"},{"id":2975,"name":"Laurence Fishburne","character":"Morpheus"}]}"#.to_vec()
        }
        _ => return FetchEvent::Response(HttpResponse { status: 404, body: Vec::new() }),
    };
    FetchEvent::Response(HttpResponse { status: 200, body })
}

fn new_writer() -> DatabaseWriter {
    let config = Config {
        token: "token".to_string(),
        postgres_host: "localhost".to_string(),
        postgres_user: "movies".to_string(),
        postgres_password: "pw".to_string(),
    };
    let mut writer = DatabaseWriter::new(&config);
    assert_eq!(writer.run_migrations(true), Action::Receive);
    writer
}

fn numbered(i: i32) -> Packet {
    Packet {
        movie_details: MovieDetails {
            id: i,
            original_title: format!("movie {}", i),
            release_date: "2000-01-01".to_string(),
            runtime: i,
        },
        cast: Cast { cast: vec![] },
    }
}

#[test]
fn two_movies_end_in_two_movie_rows_three_persons_and_five_links() {
    let client = match TmdbClient::new("token") {
        Ok(client) => client,
        Err(error) => panic!("no client: {:?}", error),
    };
    let (mut producer, mut action) =
        Producer::new(client, CalendarDate { year: 2024, month: 7, day: 15 });
    let (sender, mut receiver) = tokio::sync::mpsc::channel::<Packet>(CHANNEL_CAPACITY);
    loop {
        let event = match action {
            FetchAction::Fetch(url) => serve(&url),
            FetchAction::Send(packet) => match sender.try_send(packet) {
                Ok(()) => FetchEvent::Sent,
                Err(_) => FetchEvent::SendFailed,
            },
            FetchAction::Finish => break,
            FetchAction::Stop(error) => panic!("the producer stopped: {:?}", error),
        };
        action = producer.step(event);
    }
    assert_eq!(producer.total(), 2);
    assert_eq!(producer.sent(), 2);
    drop(sender);

    let mut writer = new_writer();
    let mut tables = Tables::new();
    let mut last = Action::Receive;
    while last == Action::Receive {
        last = match receiver.try_recv() {
            Ok(packet) => write_packet(&mut writer, &mut tables, packet),
            Err(_) => writer.run(Event::Closed),
        };
    }
    assert_eq!(last, Action::Stop(WriterError::ChannelClosed));

    assert_eq!(
        tables.movies(),
        &vec![
            MovieRow {
                movie_id: 1,
                tmdb_id: 603,
                title: "The Matrix".to_string(),
                release_date: "1999-03-31".to_string(),
                runtime_minutes: 136,
            },
            MovieRow {
                movie_id: 2,
                tmdb_id: 604,
                title: "The Matrix Reloaded".to_string(),
                release_date: "2003-05-15".to_string(),
                runtime_minutes: 138,
            },
        ]
    );
    assert_eq!(
        tables.persons(),
        &vec![
            PersonRow { person_id: 1, tmdb_id: 6384, name: "Keanu Reeves".to_string() },
            PersonRow { person_id: 2, tmdb_id: 2975, name: "Laurence Fishburne".to_string() },
            PersonRow { person_id: 3, tmdb_id: 530, name: "Carrie-Anne Moss".to_string() },
        ]
    );
    assert_eq!(
        tables.movie_cast(),
        &vec![
            CastRow { movie_id: 1, person_id: 1, character_name: "Neo".to_string() },
            CastRow { movie_id: 1, person_id: 2, character_name: "Morpheus".to_string() },
            CastRow { movie_id: 2, person_id: 1, character_name: "Neo".to_string() },
            CastRow { movie_id: 2, person_id: 3, character_name: "Trinity".to_string() },
            CastRow { movie_id: 2, person_id: 2, character_name: "Morpheus".to_string() },
        ]
    );
}

#[test]
fn a_second_run_changes_no_row_count() {
    let mut writer = new_writer();
    let mut tables = Tables::new();
    for round in 0..2 {
        for i in 1..=3 {
            let mut packet = numbered(i);
            packet.movie_details.original_title = format!("movie {} of round {}", i, round);
            assert_eq!(write_packet(&mut writer, &mut tables, packet), Action::Receive);
        }
    }
    assert_eq!(tables.movies().len(), 3);
    for (i, row) in tables.movies().iter().enumerate() {
        assert_eq!(row.movie_id, i as i32 + 1);
        assert_eq!(row.title, format!("movie {} of round 1", i + 1));
    }
}

#[test]
fn the_channel_takes_fifty_packets_and_hands_them_out_in_order() {
    let (sender, mut receiver) = tokio::sync::mpsc::channel::<Packet>(CHANNEL_CAPACITY);
    for i in 0..50 {
        assert!(sender.try_send(numbered(i)).is_ok());
    }
    match sender.try_send(numbered(50)) {
        Err(tokio::sync::mpsc::error::TrySendError::Full(packet)) => {
            assert_eq!(packet, numbered(50))
        }
        _ => panic!("the channel took a packet beyond its capacity"),
    }
    assert_eq!(receiver.try_recv().ok(), Some(numbered(0)));
    assert!(sender.try_send(numbered(50)).is_ok());
    assert!(sender.try_send(numbered(51)).is_err());
    for i in 1..=50 {
        assert_eq!(receiver.try_recv().ok(), Some(numbered(i)));
    }
    assert!(receiver.try_recv().is_err());
}

#[test]
fn a_store_that_refuses_stops_the_writer() {
    let mut writer = new_writer();
    let mut tables = match Tables::starting_at(i32::MAX, 1) {
        Some(tables) => tables,
        None => panic!("no tables"),
    };
    assert_eq!(write_packet(&mut writer, &mut tables, numbered(1)), Action::Stop(WriterError::Query));
    assert!(tables.movies().is_empty());
}

#[test]
fn a_writer_that_does_not_wait_for_a_packet_refuses_it() {
    let config = Config {
        token: "token".to_string(),
        postgres_host: "localhost".to_string(),
        postgres_user: "movies".to_string(),
        postgres_password: "pw".to_string(),
    };
    let mut writer = DatabaseWriter::new(&config);
    let mut tables = Tables::new();
    assert_eq!(
        write_packet(&mut writer, &mut tables, numbered(1)),
        Action::Stop(WriterError::Unexpected)
    );
    assert!(tables.movies().is_empty());
    assert_eq!(
        write_packet(&mut writer, &mut tables, numbered(1)),
        Action::Stop(WriterError::Unexpected)
    );
}

#[test]
fn the_last_member_of_a_person_names_the_person_and_the_character() {
    let mut writer = new_writer();
    let mut tables = Tables::new();
    let mut packet = numbered(9);
    packet.cast.cast = vec![
        CastMember { id: 7, name: "First Name".to_string(), character: "Hero".to_string() },
        CastMember { id: 8, name: "Other".to_string(), character: "Friend".to_string() },
        CastMember { id: 7, name: "Last Name".to_string(), character: "Villain".to_string() },
    ];
    assert_eq!(write_packet(&mut writer, &mut tables, packet), Action::Receive);
    assert_eq!(
        tables.persons(),
        &vec![
            PersonRow { person_id: 1, tmdb_id: 7, name: "Last Name".to_string() },
            PersonRow { person_id: 2, tmdb_id: 8, name: "Other".to_string() },
        ]
    );
    assert_eq!(
        tables.movie_cast(),
        &vec![
            CastRow { movie_id: 1, person_id: 1, character_name: "Villain".to_string() },
            CastRow { movie_id: 1, person_id: 2, character_name: "Friend".to_string() },
        ]
    );
}

#[test]
fn a_person_without_identifier_left_stops_the_writer_after_the_movie() {
    let mut writer = new_writer();
    let mut tables = match Tables::starting_at(1, i32::MAX) {
        Some(tables) => tables,
        None => panic!("no tables"),
    };
    let mut packet = numbered(9);
    packet.cast.cast =
        vec![CastMember { id: 7, name: "N".to_string(), character: "C".to_string() }];
    assert_eq!(
        write_packet(&mut writer, &mut tables, packet),
        Action::Stop(WriterError::Query)
    );
    assert_eq!(tables.movies().len(), 1);
    assert!(tables.persons().is_empty());
    assert!(tables.movie_cast().is_empty());
}
