//! Writing packets into the in-memory tables: the writer on one side, the
//! tables on the other, and each statement answered at once.

use crate::records::{CastMemberView, Packet, PacketView};
use crate::tables::{
    law_upsert_movie_leaves_one_row, lemma_upsert_link_effect, lemma_upsert_movie_valid,
    lemma_upsert_person_effect, movie_at, person_at, StoreError, Tables, TablesView,
};
use crate::writer::{
    link_statement, person_statement, step, Action, ActionView, DatabaseWriter, Event, EventView,
    StatementView, WriterError, WriterPhase,
};
use vstd::prelude::*;

verus! {

/// What writing the cast of a movie from member `from` on does to the
/// tables, and the error that ended it early, if one did. For each member
/// in turn the person is upserted and then linked to the movie, under the
/// identifier that the upsert of the person returned.
pub open spec fn write_cast(
    tables: TablesView,
    movie_id: int,
    cast: Seq<CastMemberView>,
    from: int,
) -> (TablesView, Option<WriterError>)
    decreases cast.len() - from,
{
    if from < 0 || from >= cast.len() {
        (tables, None)
    } else {
        let person = tables.upsert_person(cast[from].id, cast[from].name);
        match person.1 {
            Err(_) => (person.0, Some(WriterError::Query)),
            Ok(rows) => if rows.len() == 0 {
                (person.0, Some(WriterError::NoPersonInserted))
            } else {
                write_link(person.0, movie_id, rows[0], cast, from)
            },
        }
    }
}

/// What linking member `from` of the cast, known to the store as
/// `person_id`, and writing the members after it does to the tables.
pub open spec fn write_link(
    tables: TablesView,
    movie_id: int,
    person_id: int,
    cast: Seq<CastMemberView>,
    from: int,
) -> (TablesView, Option<WriterError>)
    decreases cast.len() - from, 0nat,
{
    if from < 0 || from >= cast.len() {
        (tables, None)
    } else {
        let link = tables.upsert_link(movie_id, person_id, cast[from].character);
        match link.1 {
            Err(_) => (link.0, Some(WriterError::Query)),
            Ok(_) => write_cast(link.0, movie_id, cast, from + 1),
        }
    }
}

/// What writing a packet does to the tables, and the error that ended it
/// early, if one did. The movie is upserted first; its cast is written under
/// the identifier that this upsert returned.
pub open spec fn write_movie(tables: TablesView, packet: PacketView) -> (
    TablesView,
    Option<WriterError>,
) {
    let movie = tables.upsert_movie(packet.movie_details);
    match movie.1 {
        Err(_) => (movie.0, Some(WriterError::Query)),
        Ok(rows) => if rows.len() == 0 {
            (movie.0, Some(WriterError::NoMovieInserted))
        } else {
            write_cast(movie.0, rows[0], packet.cast, 0)
        },
    }
}

/// Member `i` is the last member of the cast for its person.
pub open spec fn last_of_its_person(cast: Seq<CastMemberView>, i: int) -> bool {
    forall|j: int| i < j < cast.len() ==> (#[trigger] cast[j]).id != cast[i].id
}

/// The tables hold member `i` of the cast of the movie `movie_id`: the
/// person has a row and is linked to the movie; and where the member is the
/// last of the cast for its person, the row has the member's name and the
/// link the member's character.
pub open spec fn holds_member(
    tables: TablesView,
    movie_id: int,
    cast: Seq<CastMemberView>,
    i: int,
) -> bool {
    let person_id = tables.person_of(cast[i].id).person_id;
    &&& tables.has_person(cast[i].id)
    &&& tables.has_link(movie_id, person_id)
    &&& last_of_its_person(cast, i) ==> tables.person_of(cast[i].id).name == cast[i].name
        && tables.link_of(movie_id, person_id).character_name == cast[i].character
}

/// No member of the cast from `from` on is the person that the tables know
/// as `person_id`.
pub open spec fn untouched_person_id(
    tables: TablesView,
    cast: Seq<CastMemberView>,
    from: int,
    person_id: int,
) -> bool {
    forall|j: int|
        from <= j < cast.len() ==> tables.person_of((#[trigger] cast[j]).id).person_id != person_id
}

/// No member of the cast from `from` on is the person `tmdb_id`.
pub open spec fn untouched_person(cast: Seq<CastMemberView>, from: int, tmdb_id: int) -> bool {
    forall|j: int| from <= j < cast.len() ==> (#[trigger] cast[j]).id != tmdb_id
}

/// Two persons with rows in tables that meet the constraints are known to
/// the store under different identifiers.
proof fn lemma_distinct_persons(tables: TablesView, one: int, other: int)
    requires
        tables.valid(),
        tables.has_person(one),
        tables.has_person(other),
        one != other,
    ensures
        tables.person_of(one).person_id != tables.person_of(other).person_id,
{
    let a = tables.person_place(one);
    let b = tables.person_place(other);
    assert(person_at(tables.persons, a, one));
    assert(person_at(tables.persons, b, other));
    if a < b {
        assert(tables.persons[a].person_id != tables.persons[b].person_id);
    } else if b < a {
        assert(tables.persons[b].person_id != tables.persons[a].person_id);
    }
}

/// What writing the cast from member `from` on leaves in the tables, where
/// no error ended it: every member from `from` on is held; the movies are as
/// they were; no person and no link is lost, and a person keeps its
/// identifier; the row of a person that is no member from `from` on, and
/// the link of another movie or of such a person, is as it was.
pub proof fn lemma_cast_is_written(
    tables: TablesView,
    movie_id: int,
    cast: Seq<CastMemberView>,
    from: int,
)
    requires
        tables.valid(),
        0 <= from <= cast.len(),
        write_cast(tables, movie_id, cast, from).1 is None,
    ensures
        ({
            let after = write_cast(tables, movie_id, cast, from).0;
            &&& after.valid()
            &&& after.movies == tables.movies
            &&& forall|i: int| from <= i < cast.len() ==> holds_member(after, movie_id, cast, i)
            &&& forall|x: int| #[trigger]
                tables.has_person(x) ==> after.has_person(x) && after.person_of(x).person_id
                    == tables.person_of(x).person_id
            &&& forall|x: int|
                #[trigger] tables.has_person(x) && untouched_person(cast, from, x)
                    ==> after.person_of(x) == tables.person_of(x)
            &&& forall|m: int, p: int| #[trigger]
                tables.has_link(m, p) ==> after.has_link(m, p)
            &&& forall|m: int, p: int|
                #[trigger] tables.has_link(m, p) && (m != movie_id || untouched_person_id(
                    after,
                    cast,
                    from,
                    p,
                )) ==> after.link_of(m, p) == tables.link_of(m, p)
        }),
    decreases cast.len() - from,
{
    let after = write_cast(tables, movie_id, cast, from).0;
    if from < cast.len() {
        let member = cast[from];
        let with_person = tables.upsert_person(member.id, member.name).0;
        lemma_upsert_person_effect(tables, member.id, member.name);
        let person_id = with_person.person_of(member.id).person_id;
        let with_link = with_person.upsert_link(movie_id, person_id, member.character).0;
        lemma_upsert_link_effect(with_person, movie_id, person_id, member.character);
        lemma_cast_is_written(with_link, movie_id, cast, from + 1);
        assert(after == write_cast(with_link, movie_id, cast, from + 1).0);
        assert(with_link.has_person(member.id));
        assert(with_link.person_of(member.id) == with_person.person_of(member.id));
        assert(after.has_person(member.id) && after.person_of(member.id).person_id == person_id);
        assert(with_link.has_link(movie_id, person_id));
        assert(after.has_link(movie_id, person_id));
        if last_of_its_person(cast, from) {
            assert(untouched_person(cast, from + 1, member.id));
            assert(after.person_of(member.id) == with_link.person_of(member.id));
            assert forall|j: int| from + 1 <= j < cast.len() implies after.person_of(
                (#[trigger] cast[j]).id,
            ).person_id != person_id by {
                assert(holds_member(after, movie_id, cast, j));
                lemma_distinct_persons(after, cast[j].id, member.id);
            }
            assert(untouched_person_id(after, cast, from + 1, person_id));
            assert(after.link_of(movie_id, person_id) == with_link.link_of(movie_id, person_id));
        }
        assert(holds_member(after, movie_id, cast, from));
        assert forall|x: int| #[trigger] tables.has_person(x) implies after.has_person(x)
            && after.person_of(x).person_id == tables.person_of(x).person_id by {
            assert(with_person.has_person(x));
            assert(with_link.has_person(x));
            assert(with_link.person_of(x) == with_person.person_of(x));
        }
        assert forall|x: int| #[trigger]
            tables.has_person(x) && untouched_person(cast, from, x) implies after.person_of(x)
            == tables.person_of(x) by {
            assert(cast[from].id != x);
            assert(with_person.has_person(x));
            assert(with_person.person_of(x) == tables.person_of(x));
            assert(with_link.has_person(x));
            assert(with_link.person_of(x) == with_person.person_of(x));
            assert(untouched_person(cast, from + 1, x));
        }
        assert forall|m: int, p: int| #[trigger] tables.has_link(m, p) implies after.has_link(
            m,
            p,
        ) by {
            assert(with_person.has_link(m, p));
            assert(with_link.has_link(m, p));
        }
        assert forall|m: int, p: int|
            #[trigger] tables.has_link(m, p) && (m != movie_id || untouched_person_id(
                after,
                cast,
                from,
                p,
            )) implies after.link_of(m, p) == tables.link_of(m, p) by {
            assert(with_person.has_link(m, p));
            assert(with_person.link_of(m, p) == tables.link_of(m, p));
            if m == movie_id {
                assert(after.person_of(cast[from].id).person_id != p);
                assert(untouched_person_id(after, cast, from + 1, p));
            }
            assert(!(m == movie_id && p == person_id));
            assert(with_link.has_link(m, p));
            assert(with_link.link_of(m, p) == with_person.link_of(m, p));
        }
    }
}

/// A packet that was written is in the tables. Where writing a packet into
/// tables that meet the constraints ended without an error, the tables
/// still meet them; `movies` has exactly one row for the movie's external
/// identifier, with the values of the packet; every member of the cast is
/// held for that movie; and every row of another movie is as it was.
pub proof fn law_written_packet_is_in_the_tables(tables: TablesView, packet: PacketView)
    requires
        tables.valid(),
        write_movie(tables, packet).1 is None,
    ensures
        ({
            let after = write_movie(tables, packet).0;
            let details = packet.movie_details;
            &&& after.valid()
            &&& after.has_movie(details.id)
            &&& forall|i: int|
                movie_at(after.movies, i, details.id) ==> i == after.movie_place(details.id)
            &&& after.movie_of(details.id).title == details.original_title
            &&& after.movie_of(details.id).release_date == details.release_date
            &&& after.movie_of(details.id).runtime_minutes == details.runtime
            &&& forall|i: int|
                0 <= i < packet.cast.len() ==> holds_member(
                    after,
                    after.movie_of(details.id).movie_id,
                    packet.cast,
                    i,
                )
            &&& forall|i: int|
                0 <= i < tables.movies.len() && (#[trigger] tables.movies[i]).tmdb_id != details.id
                    ==> after.movies[i] == tables.movies[i]
        }),
{
    let details = packet.movie_details;
    let with_movie = tables.upsert_movie(details).0;
    let place = law_upsert_movie_leaves_one_row(tables, details);
    lemma_upsert_movie_valid(tables, details);
    let movie_id = with_movie.movies[place].movie_id;
    lemma_cast_is_written(with_movie, movie_id, packet.cast, 0);
    let after = write_movie(tables, packet).0;
    assert(after.movies == with_movie.movies);
    assert(movie_at(after.movies, place, details.id));
    assert(movie_at(after.movies, after.movie_place(details.id), details.id));
    assert(after.movie_place(details.id) == place);
    assert forall|i: int|
        0 <= i < tables.movies.len() && (#[trigger] tables.movies[i]).tmdb_id
            != details.id implies after.movies[i] == tables.movies[i] by {
        if i == place {
            assert(movie_at(after.movies, place, details.id));
            if tables.has_movie(details.id) {
                assert(movie_at(tables.movies, tables.movie_place(details.id), details.id));
            }
        }
    }
}

/// What writing the packets from packet `from` on, one after the other,
/// does to the tables, and the error that ended it early, if one did.
pub open spec fn write_packets(tables: TablesView, packets: Seq<PacketView>, from: int) -> (
    TablesView,
    Option<WriterError>,
)
    decreases packets.len() - from,
{
    if from < 0 || from >= packets.len() {
        (tables, None)
    } else {
        let one = write_movie(tables, packets[from]);
        match one.1 {
            Some(error) => one,
            None => write_packets(one.0, packets, from + 1),
        }
    }
}

/// Packet `i` is the last of the packets for its movie.
pub open spec fn last_of_its_movie(packets: Seq<PacketView>, i: int) -> bool {
    forall|j: int|
        i < j < packets.len() ==> (#[trigger] packets[j]).movie_details.id
            != packets[i].movie_details.id
}

/// No packet from `from` on is of the movie `tmdb_id`.
pub open spec fn untouched_movie(packets: Seq<PacketView>, from: int, tmdb_id: int) -> bool {
    forall|j: int| from <= j < packets.len() ==> (#[trigger] packets[j]).movie_details.id != tmdb_id
}

/// In tables that meet the constraints, the row of a movie stands at one
/// place only.
proof fn lemma_movie_place(tables: TablesView, i: int, tmdb_id: int)
    requires
        tables.valid(),
        movie_at(tables.movies, i, tmdb_id),
    ensures
        tables.has_movie(tmdb_id),
        tables.movie_place(tmdb_id) == i,
{
    let place = tables.movie_place(tmdb_id);
    assert(movie_at(tables.movies, place, tmdb_id));
    if place < i {
        assert(tables.movies[place].tmdb_id != tables.movies[i].tmdb_id);
    } else if i < place {
        assert(tables.movies[i].tmdb_id != tables.movies[place].tmdb_id);
    }
}

/// A written packet loses no movie, and leaves the row of every other movie
/// as it was.
proof fn lemma_written_packet_keeps_movies(tables: TablesView, packet: PacketView, tmdb_id: int)
    requires
        tables.valid(),
        write_movie(tables, packet).1 is None,
        tables.has_movie(tmdb_id),
    ensures
        write_movie(tables, packet).0.has_movie(tmdb_id),
        tmdb_id != packet.movie_details.id ==> write_movie(tables, packet).0.movie_of(tmdb_id)
            == tables.movie_of(tmdb_id),
{
    let after = write_movie(tables, packet).0;
    let details = packet.movie_details;
    law_written_packet_is_in_the_tables(tables, packet);
    if tmdb_id != details.id {
        let place = tables.movie_place(tmdb_id);
        assert(movie_at(tables.movies, place, tmdb_id));
        let with_movie = tables.upsert_movie(details).0;
        let at = law_upsert_movie_leaves_one_row(tables, details);
        lemma_upsert_movie_valid(tables, details);
        lemma_cast_is_written(with_movie, with_movie.movies[at].movie_id, packet.cast, 0);
        assert(after.movies == with_movie.movies);
        assert(after.movies[place] == tables.movies[place]);
        assert(movie_at(after.movies, place, tmdb_id));
        lemma_movie_place(after, place, tmdb_id);
    }
}

/// The packets that were written are in the tables, and of two packets for
/// one movie the later one counts. Where writing the packets from packet
/// `from` on, one after the other, ended without an error, every movie of
/// these packets has a row, and the row has the values of the last packet for
/// that movie. No movie that had a row has lost it, and the row of a movie
/// that none of these packets is about is as it was.
pub proof fn law_written_packets_are_in_the_tables(
    tables: TablesView,
    packets: Seq<PacketView>,
    from: int,
)
    requires
        tables.valid(),
        0 <= from <= packets.len(),
        write_packets(tables, packets, from).1 is None,
    ensures
        ({
            let after = write_packets(tables, packets, from).0;
            &&& after.valid()
            &&& forall|i: int|
                from <= i < packets.len() ==> after.has_movie(
                    (#[trigger] packets[i]).movie_details.id,
                )
            &&& forall|i: int|
                from <= i < packets.len() && last_of_its_movie(packets, i) ==> {
                    let details = (#[trigger] packets[i]).movie_details;
                    &&& after.movie_of(details.id).title == details.original_title
                    &&& after.movie_of(details.id).release_date == details.release_date
                    &&& after.movie_of(details.id).runtime_minutes == details.runtime
                }
            &&& forall|x: int| #[trigger] tables.has_movie(x) ==> after.has_movie(x)
            &&& forall|x: int|
                #[trigger] tables.has_movie(x) && untouched_movie(packets, from, x)
                    ==> after.movie_of(x) == tables.movie_of(x)
        }),
    decreases packets.len() - from,
{
    let after = write_packets(tables, packets, from).0;
    if from < packets.len() {
        let packet = packets[from];
        let details = packet.movie_details;
        let one = write_movie(tables, packet).0;
        law_written_packet_is_in_the_tables(tables, packet);
        law_written_packets_are_in_the_tables(one, packets, from + 1);
        assert(after == write_packets(one, packets, from + 1).0);
        assert(one.has_movie(details.id));
        assert(after.has_movie(details.id));
        if last_of_its_movie(packets, from) {
            assert(untouched_movie(packets, from + 1, details.id));
            assert(after.movie_of(details.id) == one.movie_of(details.id));
        }
        assert forall|x: int| #[trigger] tables.has_movie(x) implies after.has_movie(x) by {
            lemma_written_packet_keeps_movies(tables, packet, x);
            assert(one.has_movie(x));
        }
        assert forall|x: int| #[trigger]
            tables.has_movie(x) && untouched_movie(packets, from, x) implies after.movie_of(x)
            == tables.movie_of(x) by {
            assert(packets[from].movie_details.id != x);
            lemma_written_packet_keeps_movies(tables, packet, x);
            assert(one.has_movie(x));
            assert(untouched_movie(packets, from + 1, x));
        }
    }
}

/// The event with which an answer of the store reaches the writer.
pub open spec fn answer_event(answer: Result<Seq<int>, StoreError>) -> EventView {
    match answer {
        Ok(rows) => EventView::Rows(rows),
        Err(_) => EventView::QueryFailed,
    }
}

/// The phase and the action of the writer fit together: what it asks for is
/// what its phase waits for.
pub open spec fn coherent(phase: WriterPhase, action: ActionView) -> bool {
    match phase {
        WriterPhase::Migrating => false,
        WriterPhase::Idle => action == ActionView::Receive,
        WriterPhase::Movie { packet } => action == ActionView::Execute(
            StatementView::UpsertMovie { details: packet.movie_details },
        ),
        WriterPhase::Person { movie_id, cast, index } => action == ActionView::Execute(
            person_statement(cast[index]),
        ),
        WriterPhase::Link { movie_id, cast, index } => action matches ActionView::Execute(
            StatementView::UpsertCastLink { movie_id: m, person_id, character_name },
        ) && m == movie_id && character_name == cast[index].character,
        WriterPhase::Failed(error) => action == ActionView::Stop(error),
    }
}

/// What is left to do of the packet at hand, when the writer stands in
/// `phase` and has asked for `action`: the tables in the end, and the error
/// that ends the work early, if one does.
pub open spec fn remaining(tables: TablesView, phase: WriterPhase, action: ActionView) -> (
    TablesView,
    Option<WriterError>,
) {
    match phase {
        WriterPhase::Movie { packet } => write_movie(tables, packet),
        WriterPhase::Person { movie_id, cast, index } => write_cast(tables, movie_id, cast, index),
        WriterPhase::Link { movie_id, cast, index } => write_link(
            tables,
            movie_id,
            action->Execute_0->UpsertCastLink_person_id,
            cast,
            index,
        ),
        WriterPhase::Failed(error) => (tables, Some(error)),
        _ => (tables, None),
    }
}

/// The number of statements that the writer asks for at most before it
/// waits for the next packet.
pub open spec fn pending(phase: WriterPhase) -> nat {
    match phase {
        WriterPhase::Movie { packet } => 2 * packet.cast.len() + 1,
        WriterPhase::Person { cast, index, .. } => if 0 <= index < cast.len() {
            (2 * (cast.len() - index)) as nat
        } else {
            0
        },
        WriterPhase::Link { cast, index, .. } => if 0 <= index < cast.len() {
            (2 * (cast.len() - index) - 1) as nat
        } else {
            0
        },
        _ => 0,
    }
}

/// One statement executed and answered leaves the same work to do, less
/// that statement.
proof fn lemma_answered_step(tables: TablesView, phase: WriterPhase, statement: StatementView)
    requires
        phase.well_formed(),
        coherent(phase, ActionView::Execute(statement)),
    ensures
        ({
            let applied = tables.apply(statement);
            let next = step(phase, answer_event(applied.1));
            &&& coherent(next.0, next.1)
            &&& remaining(applied.0, next.0, next.1) == remaining(
                tables,
                phase,
                ActionView::Execute(statement),
            )
            &&& pending(next.0) < pending(phase)
        }),
{
    let applied = tables.apply(statement);
    let next = step(phase, answer_event(applied.1));
    match phase {
        WriterPhase::Movie { packet } => {
            reveal_with_fuel(write_cast, 2);
        },
        WriterPhase::Person { movie_id, cast, index } => {
            reveal_with_fuel(write_cast, 2);
            reveal_with_fuel(write_link, 2);
        },
        WriterPhase::Link { movie_id, cast, index } => {
            reveal_with_fuel(write_cast, 2);
            reveal_with_fuel(write_link, 2);
        },
        _ => {},
    }
}

/// Hands `packet` to the writer and executes on the tables what the writer
/// asks for, until it asks for something else: the next packet, where all
/// went well, or to stop. A writer that does not wait for a packet refuses
/// it, and the tables stay as they were.
pub fn write_packet(writer: &mut DatabaseWriter, tables: &mut Tables, packet: Packet) -> (action:
    Action)
    requires
        old(tables)@.valid(),
    ensures
        final(tables)@.valid(),
        !(action@ is Execute),
        coherent(final(writer).phase(), action@),
        final(writer).connection() == old(writer).connection(),
        old(writer).phase() is Idle ==> final(tables)@ == write_movie(old(tables)@, packet@).0 && (
        match write_movie(old(tables)@, packet@).1 {
            Some(error) => action@ == ActionView::Stop(error),
            None => action@ == ActionView::Receive,
        }),
        !(old(writer).phase() is Idle) ==> final(tables)@ == old(tables)@ && (
            final(writer).phase(),
            action@,
        ) == step(old(writer).phase(), EventView::Received(packet@)),
{
    let ghost goal = write_movie(tables@, packet@);
    let ghost idle = writer.phase() is Idle;
    let ghost before = tables@;
    let ghost first = step(writer.phase(), EventView::Received(packet@));
    let mut action = writer.run(Event::Received(packet));
    loop
        invariant
            tables@.valid(),
            writer.phase().well_formed(),
            coherent(writer.phase(), action@),
            writer.connection() == old(writer).connection(),
            idle ==> remaining(tables@, writer.phase(), action@) == goal,
            !idle ==> tables@ == before && !(action@ is Execute) && (writer.phase(), action@)
                == first,
        ensures
            !(action@ is Execute),
        decreases pending(writer.phase()),
    {
        let statement = match action {
            Action::Execute(statement) => statement,
            other => {
                action = other;
                break;
            },
        };
        proof {
            lemma_answered_step(tables@, writer.phase(), statement@);
        }
        let event = match tables.execute(&statement) {
            Ok(rows) => Event::Rows(rows),
            Err(_) => Event::QueryFailed,
        };
        action = writer.run(event);
    }
    action
}

} // verus!
