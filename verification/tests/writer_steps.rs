use tmdb_ingest::config::Config;
use tmdb_ingest::records::{Cast, CastMember, MovieDetails, Packet};
use tmdb_ingest::writer::{Action, DatabaseWriter, Event, Statement, WriterError};

fn config() -> Config {
    Config {
        token: "t".to_string(),
        postgres_host: "localhost".to_string(),
        postgres_user: "movies".to_string(),
        postgres_password: "pw".to_string(),
    }
}

fn details() -> MovieDetails {
    MovieDetails {
        id: 603,
        original_title: "The Matrix".to_string(),
        release_date: "1999-03-31".to_string(),
        runtime: 136,
    }
}

fn member(id: i32, name: &str, character: &str) -> CastMember {
    CastMember { id, name: name.to_string(), character: character.to_string() }
}

fn packet(cast: Vec<CastMember>) -> Packet {
    Packet { movie_details: details(), cast: Cast { cast } }
}

fn ready() -> DatabaseWriter {
    let mut writer = DatabaseWriter::new(&config());
    assert_eq!(writer.run_migrations(true), Action::Receive);
    writer
}

#[test]
fn a_new_writer_knows_how_to_connect() {
    let writer = DatabaseWriter::new(&config());
    assert_eq!(writer.connection_string(), "host=localhost user=movies password=pw");
}

#[test]
fn migrations_come_first() {
    let mut writer = DatabaseWriter::new(&config());
    assert_eq!(
        writer.run(Event::Received(packet(vec![]))),
        Action::Stop(WriterError::Unexpected)
    );
    assert_eq!(writer.run_migrations(true), Action::Stop(WriterError::Unexpected));
}

#[test]
fn failed_migrations_stop_the_writer() {
    let mut writer = DatabaseWriter::new(&config());
    assert_eq!(writer.run_migrations(false), Action::Stop(WriterError::Migration));
    assert_eq!(writer.run(Event::Received(packet(vec![]))), Action::Stop(WriterError::Migration));
    assert_eq!(writer.run_migrations(true), Action::Stop(WriterError::Migration));
}

#[test]
fn migrations_may_run_again_between_packets() {
    let mut writer = ready();
    assert_eq!(writer.run_migrations(true), Action::Receive);
    assert_eq!(writer.run_migrations(true), Action::Receive);
    assert_eq!(
        writer.run(Event::Received(packet(vec![]))),
        Action::Execute(Statement::UpsertMovie { details: details() })
    );
    assert_eq!(writer.run(Event::Rows(vec![17])), Action::Receive);
    assert_eq!(writer.run_migrations(true), Action::Receive);
    assert_eq!(
        writer.run(Event::Received(packet(vec![]))),
        Action::Execute(Statement::UpsertMovie { details: details() })
    );
}

#[test]
fn a_later_run_of_the_migrations_that_fails_stops_the_writer() {
    let mut writer = ready();
    assert_eq!(writer.run_migrations(false), Action::Stop(WriterError::Migration));
    assert_eq!(writer.run_migrations(true), Action::Stop(WriterError::Migration));
    assert_eq!(writer.run(Event::Received(packet(vec![]))), Action::Stop(WriterError::Migration));
}

#[test]
fn migrations_in_the_middle_of_a_packet_answer_nothing() {
    let mut writer = ready();
    writer.run(Event::Received(packet(vec![member(1, "A", "X")])));
    assert_eq!(writer.run_migrations(true), Action::Stop(WriterError::Unexpected));
    let mut writer = ready();
    writer.run(Event::Received(packet(vec![member(1, "A", "X")])));
    writer.run(Event::Rows(vec![17]));
    assert_eq!(writer.run_migrations(false), Action::Stop(WriterError::Unexpected));
}

#[test]
fn a_packet_without_cast_takes_one_statement() {
    let mut writer = ready();
    assert_eq!(
        writer.run(Event::Received(packet(vec![]))),
        Action::Execute(Statement::UpsertMovie { details: details() })
    );
    assert_eq!(writer.run(Event::Rows(vec![17])), Action::Receive);
}

#[test]
fn a_packet_is_written_movie_first_then_each_member_and_its_link() {
    let mut writer = ready();
    let cast = vec![member(6384, "Keanu Reeves", "Neo"), member(2975, "Laurence Fishburne", "Morpheus")];
    assert_eq!(
        writer.run(Event::Received(packet(cast))),
        Action::Execute(Statement::UpsertMovie { details: details() })
    );
    assert_eq!(
        writer.run(Event::Rows(vec![17])),
        Action::Execute(Statement::UpsertPerson { tmdb_id: 6384, name: "Keanu Reeves".to_string() })
    );
    assert_eq!(
        writer.run(Event::Rows(vec![4])),
        Action::Execute(Statement::UpsertCastLink {
            movie_id: 17,
            person_id: 4,
            character_name: "Neo".to_string(),
        })
    );
    assert_eq!(
        writer.run(Event::Rows(vec![])),
        Action::Execute(Statement::UpsertPerson {
            tmdb_id: 2975,
            name: "Laurence Fishburne".to_string(),
        })
    );
    assert_eq!(
        writer.run(Event::Rows(vec![5, 99])),
        Action::Execute(Statement::UpsertCastLink {
            movie_id: 17,
            person_id: 5,
            character_name: "Morpheus".to_string(),
        })
    );
    assert_eq!(writer.run(Event::Rows(vec![])), Action::Receive);
    assert_eq!(
        writer.run(Event::Received(packet(vec![]))),
        Action::Execute(Statement::UpsertMovie { details: details() })
    );
}

#[test]
fn no_row_for_the_movie_fails_and_nothing_of_the_cast_is_written() {
    let mut writer = ready();
    writer.run(Event::Received(packet(vec![member(1, "A", "X")])));
    assert_eq!(writer.run(Event::Rows(vec![])), Action::Stop(WriterError::NoMovieInserted));
    assert_eq!(writer.run(Event::Rows(vec![1])), Action::Stop(WriterError::NoMovieInserted));
    assert_eq!(
        writer.run(Event::Received(packet(vec![]))),
        Action::Stop(WriterError::NoMovieInserted)
    );
}

#[test]
fn no_row_for_a_person_fails() {
    let mut writer = ready();
    writer.run(Event::Received(packet(vec![member(1, "A", "X")])));
    writer.run(Event::Rows(vec![17]));
    assert_eq!(writer.run(Event::Rows(vec![])), Action::Stop(WriterError::NoPersonInserted));
}

#[test]
fn a_refused_statement_fails_in_every_phase() {
    let mut writer = ready();
    writer.run(Event::Received(packet(vec![member(1, "A", "X")])));
    assert_eq!(writer.run(Event::QueryFailed), Action::Stop(WriterError::Query));

    let mut writer = ready();
    writer.run(Event::Received(packet(vec![member(1, "A", "X")])));
    writer.run(Event::Rows(vec![17]));
    assert_eq!(writer.run(Event::QueryFailed), Action::Stop(WriterError::Query));

    let mut writer = ready();
    writer.run(Event::Received(packet(vec![member(1, "A", "X")])));
    writer.run(Event::Rows(vec![17]));
    writer.run(Event::Rows(vec![3]));
    assert_eq!(writer.run(Event::QueryFailed), Action::Stop(WriterError::Query));
    assert_eq!(writer.run(Event::Rows(vec![])), Action::Stop(WriterError::Query));
}

#[test]
fn a_closed_channel_is_a_failure() {
    let mut writer = ready();
    assert_eq!(writer.run(Event::Closed), Action::Stop(WriterError::ChannelClosed));
    assert_eq!(writer.run(Event::Closed), Action::Stop(WriterError::ChannelClosed));
}

#[test]
fn events_that_answer_nothing_fail() {
    let mut writer = ready();
    assert_eq!(writer.run(Event::Rows(vec![1])), Action::Stop(WriterError::Unexpected));
    let mut writer = ready();
    assert_eq!(writer.run(Event::QueryFailed), Action::Stop(WriterError::Unexpected));
    let mut writer = ready();
    writer.run(Event::Received(packet(vec![])));
    assert_eq!(
        writer.run(Event::Received(packet(vec![]))),
        Action::Stop(WriterError::Unexpected)
    );
    let mut writer = ready();
    writer.run(Event::Received(packet(vec![])));
    assert_eq!(writer.run(Event::Closed), Action::Stop(WriterError::Unexpected));
}

#[test]
fn errors_have_their_messages() {
    assert_eq!(WriterError::ChannelClosed.message(), "sender closed channel");
    assert_eq!(WriterError::NoMovieInserted.message(), "no movie inserted");
    assert_eq!(WriterError::NoPersonInserted.message(), "no person inserted");
    assert_eq!(WriterError::Migration.message(), "migrations failed");
    assert_eq!(WriterError::Query.message(), "query failed");
    assert_eq!(WriterError::Unexpected.message(), "unexpected event");
}

#[test]
fn statements_upsert_on_their_keys() {
    let movie = Statement::UpsertMovie { details: details() };
    assert!(movie.sql().starts_with("INSERT INTO movies (tmdb_id, title, release_date, runtime_minutes) VALUES ($1, $2, $3, $4)"));
    assert!(movie.sql().contains("ON CONFLICT (tmdb_id) DO UPDATE SET"));
    assert!(movie.sql().ends_with("RETURNING movie_id"));
    let person = Statement::UpsertPerson { tmdb_id: 1, name: "A".to_string() };
    assert!(person.sql().starts_with("INSERT INTO persons (tmdb_id, name) VALUES ($1, $2)"));
    assert!(person.sql().contains("ON CONFLICT (tmdb_id) DO UPDATE SET name = EXCLUDED.name"));
    assert!(person.sql().ends_with("RETURNING person_id"));
    let link = Statement::UpsertCastLink { movie_id: 1, person_id: 2, character_name: "X".to_string() };
    assert!(link.sql().starts_with("INSERT INTO movie_cast (movie_id, person_id, character_name) VALUES ($1, $2, $3)"));
    assert!(link.sql().contains("ON CONFLICT ON CONSTRAINT movie_cast_pkey DO UPDATE SET"));
    assert!(link.sql().ends_with("character_name = EXCLUDED.character_name"));
}
