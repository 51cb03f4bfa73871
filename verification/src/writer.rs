//! The writer of the relational store, as a state machine.
//!
//! The writer decides what is done next: apply the migrations, wait for a
//! packet, execute a statement, or stop. Whoever owns the connection and the
//! channel does it and reports the outcome as an event. For each packet the
//! movie is upserted first and the identifier that the store returns for it
//! is awaited; only then, for each member of the cast in turn, the person is
//! upserted, its identifier awaited, and the movie and the person linked.
//! Every failure is final.

use crate::config::{connection_string_of, Config, ConfigView};
use crate::records::{Cast, CastMember, CastMemberView, MovieDetails, MovieDetailsView, Packet, PacketView};
use vstd::prelude::*;

verus! {

/// A statement for the store, with the values of its parameters in their
/// order.
#[derive(Debug, PartialEq, Eq)]
pub enum Statement {
    /// Insert a movie by its external identifier, or overwrite the other
    /// columns of the row that has it; returns the row's `movie_id`.
    UpsertMovie { details: MovieDetails },
    /// Insert a person by its external identifier, or overwrite the name of
    /// the row that has it; returns the row's `person_id`.
    UpsertPerson { tmdb_id: i32, name: String },
    /// Insert the link of a movie and a person, or overwrite the character
    /// name of the link that exists.
    UpsertCastLink { movie_id: i32, person_id: i32, character_name: String },
}

/// Mathematical model of [`Statement`].
pub enum StatementView {
    UpsertMovie { details: MovieDetailsView },
    UpsertPerson { tmdb_id: int, name: Seq<char> },
    UpsertCastLink { movie_id: int, person_id: int, character_name: Seq<char> },
}

impl View for Statement {
    type V = StatementView;

    open spec fn view(&self) -> StatementView {
        match *self {
            Statement::UpsertMovie { details } => StatementView::UpsertMovie { details: details@ },
            Statement::UpsertPerson { tmdb_id, name } => StatementView::UpsertPerson {
                tmdb_id: tmdb_id as int,
                name: name@,
            },
            Statement::UpsertCastLink {
                movie_id,
                person_id,
                character_name,
            } => StatementView::UpsertCastLink {
                movie_id: movie_id as int,
                person_id: person_id as int,
                character_name: character_name@,
            },
        }
    }
}

/// The text of a statement.
pub open spec fn sql_of(statement: StatementView) -> Seq<char> {
    match statement {
        StatementView::UpsertMovie { .. } =>
            "INSERT INTO movies (tmdb_id, title, release_date, runtime_minutes) VALUES ($1, $2, $3, $4) ON CONFLICT (tmdb_id) DO UPDATE SET title = EXCLUDED.title, release_date = EXCLUDED.release_date, runtime_minutes = EXCLUDED.runtime_minutes, created_at = EXCLUDED.created_at RETURNING movie_id"@,
        StatementView::UpsertPerson { .. } =>
            "INSERT INTO persons (tmdb_id, name) VALUES ($1, $2) ON CONFLICT (tmdb_id) DO UPDATE SET name = EXCLUDED.name, created_at = EXCLUDED.created_at RETURNING person_id"@,
        StatementView::UpsertCastLink { .. } =>
            "INSERT INTO movie_cast (movie_id, person_id, character_name) VALUES ($1, $2, $3) ON CONFLICT ON CONSTRAINT movie_cast_pkey DO UPDATE SET movie_id = EXCLUDED.movie_id, person_id = EXCLUDED.person_id, character_name = EXCLUDED.character_name"@,
    }
}

impl Statement {
    /// The text of this statement, with `$1`, `$2`, ... for its parameters.
    pub fn sql(&self) -> (text: &'static str)
        ensures
            text@ == sql_of(self@),
    {
        match self {
            Statement::UpsertMovie { .. } =>
                "INSERT INTO movies (tmdb_id, title, release_date, runtime_minutes) VALUES ($1, $2, $3, $4) ON CONFLICT (tmdb_id) DO UPDATE SET title = EXCLUDED.title, release_date = EXCLUDED.release_date, runtime_minutes = EXCLUDED.runtime_minutes, created_at = EXCLUDED.created_at RETURNING movie_id",
            Statement::UpsertPerson { .. } =>
                "INSERT INTO persons (tmdb_id, name) VALUES ($1, $2) ON CONFLICT (tmdb_id) DO UPDATE SET name = EXCLUDED.name, created_at = EXCLUDED.created_at RETURNING person_id",
            Statement::UpsertCastLink { .. } =>
                "INSERT INTO movie_cast (movie_id, person_id, character_name) VALUES ($1, $2, $3) ON CONFLICT ON CONSTRAINT movie_cast_pkey DO UPDATE SET movie_id = EXCLUDED.movie_id, person_id = EXCLUDED.person_id, character_name = EXCLUDED.character_name",
        }
    }
}

/// Why the writer stopped.
#[derive(Debug, Clone, Copy, PartialEq, Eq, Structural)]
pub enum WriterError {
    /// The migrations could not be applied.
    Migration,
    /// The sending side of the channel was closed.
    ChannelClosed,
    /// The store returned no row for the upsert of a movie.
    NoMovieInserted,
    /// The store returned no row for the upsert of a person.
    NoPersonInserted,
    /// The store refused a statement.
    Query,
    /// An event arrived that does not answer what the writer asked for.
    Unexpected,
}

/// The text with which an error is reported.
pub open spec fn message_of(error: WriterError) -> Seq<char> {
    match error {
        WriterError::Migration => "migrations failed"@,
        WriterError::ChannelClosed => "sender closed channel"@,
        WriterError::NoMovieInserted => "no movie inserted"@,
        WriterError::NoPersonInserted => "no person inserted"@,
        WriterError::Query => "query failed"@,
        WriterError::Unexpected => "unexpected event"@,
    }
}

impl WriterError {
    /// The text with which this error is reported.
    pub fn message(&self) -> (text: &'static str)
        ensures
            text@ == message_of(*self),
    {
        match self {
            WriterError::Migration => "migrations failed",
            WriterError::ChannelClosed => "sender closed channel",
            WriterError::NoMovieInserted => "no movie inserted",
            WriterError::NoPersonInserted => "no person inserted",
            WriterError::Query => "query failed",
            WriterError::Unexpected => "unexpected event",
        }
    }
}

/// The first column of the rows of an answer, as the models have it.
pub open spec fn rows_of(rows: Seq<i32>) -> Seq<int> {
    Seq::new(rows.len(), |i: int| rows[i] as int)
}

/// What happened to what the writer asked for.
#[derive(Debug, PartialEq, Eq)]
pub enum Event {
    /// A packet arrived on the channel.
    Received(Packet),
    /// The channel is closed and empty.
    Closed,
    /// The statement was executed; of each row that it returned, the first
    /// column is given.
    Rows(Vec<i32>),
    /// The store refused the statement.
    QueryFailed,
}

/// Mathematical model of [`Event`].
pub enum EventView {
    Received(PacketView),
    Closed,
    Rows(Seq<int>),
    QueryFailed,
}

impl View for Event {
    type V = EventView;

    open spec fn view(&self) -> EventView {
        match *self {
            Event::Received(packet) => EventView::Received(packet@),
            Event::Closed => EventView::Closed,
            Event::Rows(rows) => EventView::Rows(rows_of(rows@)),
            Event::QueryFailed => EventView::QueryFailed,
        }
    }
}

/// What the writer asks for next.
#[derive(Debug, PartialEq, Eq)]
pub enum Action {
    /// Wait for the next packet on the channel.
    Receive,
    /// Execute this statement.
    Execute(Statement),
    /// Stop: the writer has failed, for good.
    Stop(WriterError),
}

/// Mathematical model of [`Action`].
pub enum ActionView {
    Receive,
    Execute(StatementView),
    Stop(WriterError),
}

impl View for Action {
    type V = ActionView;

    open spec fn view(&self) -> ActionView {
        match *self {
            Action::Receive => ActionView::Receive,
            Action::Execute(statement) => ActionView::Execute(statement@),
            Action::Stop(error) => ActionView::Stop(error),
        }
    }
}

/// Where the writer stands.
pub enum WriterPhase {
    /// The migrations are not applied yet.
    Migrating,
    /// The writer waits for a packet.
    Idle,
    /// The movie of `packet` is being upserted.
    Movie { packet: PacketView },
    /// The person `cast[index]` is being upserted, for the movie that the
    /// store knows as `movie_id`.
    Person { movie_id: int, cast: Seq<CastMemberView>, index: int },
    /// The movie `movie_id` and the person `cast[index]` are being linked.
    Link { movie_id: int, cast: Seq<CastMemberView>, index: int },
    /// The writer has failed.
    Failed(WriterError),
}

impl WriterPhase {
    /// The member that is being written is one of the cast.
    pub open spec fn well_formed(self) -> bool {
        match self {
            WriterPhase::Person { cast, index, .. } => 0 <= index < cast.len(),
            WriterPhase::Link { cast, index, .. } => 0 <= index < cast.len(),
            _ => true,
        }
    }
}

/// The statement that upserts the person `member`.
pub open spec fn person_statement(member: CastMemberView) -> StatementView {
    StatementView::UpsertPerson { tmdb_id: member.id, name: member.name }
}

/// The statement that links `member`, known to the store as `person_id`, to
/// the movie `movie_id`.
pub open spec fn link_statement(movie_id: int, person_id: int, member: CastMemberView) -> StatementView {
    StatementView::UpsertCastLink { movie_id, person_id, character_name: member.character }
}

/// The phase and the action with which the writer goes on to the member
/// `index` of the cast, or back to waiting where the cast has no such member.
pub open spec fn continue_cast(movie_id: int, cast: Seq<CastMemberView>, index: int) -> (
    WriterPhase,
    ActionView,
) {
    if 0 <= index < cast.len() {
        (
            WriterPhase::Person { movie_id, cast, index },
            ActionView::Execute(person_statement(cast[index])),
        )
    } else {
        (WriterPhase::Idle, ActionView::Receive)
    }
}

/// The phase and the action of a writer that fails with `error`.
pub open spec fn fail(error: WriterError) -> (WriterPhase, ActionView) {
    (WriterPhase::Failed(error), ActionView::Stop(error))
}

/// One step of the writer while it drains the channel: the phase it is in
/// and the event that arrived give the next phase and what to do next.
pub open spec fn step(phase: WriterPhase, event: EventView) -> (WriterPhase, ActionView) {
    match phase {
        WriterPhase::Failed(error) => fail(error),
        WriterPhase::Migrating => fail(WriterError::Unexpected),
        WriterPhase::Idle => match event {
            EventView::Received(packet) => (
                WriterPhase::Movie { packet },
                ActionView::Execute(StatementView::UpsertMovie { details: packet.movie_details }),
            ),
            EventView::Closed => fail(WriterError::ChannelClosed),
            _ => fail(WriterError::Unexpected),
        },
        WriterPhase::Movie { packet } => match event {
            EventView::Rows(rows) => if rows.len() == 0 {
                fail(WriterError::NoMovieInserted)
            } else {
                continue_cast(rows[0], packet.cast, 0)
            },
            EventView::QueryFailed => fail(WriterError::Query),
            _ => fail(WriterError::Unexpected),
        },
        WriterPhase::Person { movie_id, cast, index } => match event {
            EventView::Rows(rows) => if rows.len() == 0 {
                fail(WriterError::NoPersonInserted)
            } else {
                (
                    WriterPhase::Link { movie_id, cast, index },
                    ActionView::Execute(link_statement(movie_id, rows[0], cast[index])),
                )
            },
            EventView::QueryFailed => fail(WriterError::Query),
            _ => fail(WriterError::Unexpected),
        },
        WriterPhase::Link { movie_id, cast, index } => match event {
            EventView::Rows(_) => continue_cast(movie_id, cast, index + 1),
            EventView::QueryFailed => fail(WriterError::Query),
            _ => fail(WriterError::Unexpected),
        },
    }
}

/// The step that a run of the migrations makes. A writer that has not
/// applied them yet waits for packets once they are applied. A writer that
/// waits for a packet may have them run again: what is applied already is
/// left alone, and the writer goes on waiting. Either writer fails if the
/// run failed. In the middle of a packet the migrations do not answer what
/// the writer asked for, and a writer that has failed stays failed.
pub open spec fn migrate_step(phase: WriterPhase, applied: bool) -> (WriterPhase, ActionView) {
    match phase {
        WriterPhase::Failed(error) => fail(error),
        WriterPhase::Migrating | WriterPhase::Idle => if applied {
            (WriterPhase::Idle, ActionView::Receive)
        } else {
            fail(WriterError::Migration)
        },
        _ => fail(WriterError::Unexpected),
    }
}

enum Phase {
    Migrating,
    Idle,
    Movie { packet: Packet },
    Person { movie_id: i32, cast: Cast, index: usize },
    Link { movie_id: i32, cast: Cast, index: usize },
    Failed(WriterError),
}

impl Phase {
    spec fn well_formed(self) -> bool {
        match self {
            Phase::Person { cast, index, .. } => index < cast.cast@.len(),
            Phase::Link { cast, index, .. } => index < cast.cast@.len(),
            _ => true,
        }
    }

    spec fn model(self) -> WriterPhase {
        match self {
            Phase::Migrating => WriterPhase::Migrating,
            Phase::Idle => WriterPhase::Idle,
            Phase::Movie { packet } => WriterPhase::Movie { packet: packet@ },
            Phase::Person { movie_id, cast, index } => WriterPhase::Person {
                movie_id: movie_id as int,
                cast: cast@,
                index: index as int,
            },
            Phase::Link { movie_id, cast, index } => WriterPhase::Link {
                movie_id: movie_id as int,
                cast: cast@,
                index: index as int,
            },
            Phase::Failed(error) => WriterPhase::Failed(error),
        }
    }
}

fn stop(error: WriterError) -> (r: (Phase, Action))
    ensures
        r.0.well_formed(),
        (r.0.model(), r.1@) == fail(error),
{
    (Phase::Failed(error), Action::Stop(error))
}

fn go_on(movie_id: i32, cast: Cast, index: usize) -> (r: (Phase, Action))
    ensures
        r.0.well_formed(),
        (r.0.model(), r.1@) == continue_cast(movie_id as int, cast@, index as int),
{
    if index < cast.cast.len() {
        let member = &cast.cast[index];
        let statement = Statement::UpsertPerson { tmdb_id: member.id, name: member.name.clone() };
        (Phase::Person { movie_id, cast, index }, Action::Execute(statement))
    } else {
        (Phase::Idle, Action::Receive)
    }
}

fn advance(phase: Phase, event: Event) -> (r: (Phase, Action))
    requires
        phase.well_formed(),
    ensures
        r.0.well_formed(),
        (r.0.model(), r.1@) == step(phase.model(), event@),
{
    match phase {
        Phase::Failed(error) => stop(error),
        Phase::Migrating => stop(WriterError::Unexpected),
        Phase::Idle => match event {
            Event::Received(packet) => {
                let statement = Statement::UpsertMovie { details: packet.movie_details.clone() };
                (Phase::Movie { packet }, Action::Execute(statement))
            },
            Event::Closed => stop(WriterError::ChannelClosed),
            _ => stop(WriterError::Unexpected),
        },
        Phase::Movie { packet } => match event {
            Event::Rows(rows) => if rows.len() == 0 {
                stop(WriterError::NoMovieInserted)
            } else {
                go_on(rows[0], packet.cast, 0)
            },
            Event::QueryFailed => stop(WriterError::Query),
            _ => stop(WriterError::Unexpected),
        },
        Phase::Person { movie_id, cast, index } => match event {
            Event::Rows(rows) => if rows.len() == 0 {
                stop(WriterError::NoPersonInserted)
            } else {
                let statement = Statement::UpsertCastLink {
                    movie_id,
                    person_id: rows[0],
                    character_name: cast.cast[index].character.clone(),
                };
                (Phase::Link { movie_id, cast, index }, Action::Execute(statement))
            },
            Event::QueryFailed => stop(WriterError::Query),
            _ => stop(WriterError::Unexpected),
        },
        Phase::Link { movie_id, cast, index } => match event {
            Event::Rows(_) => {
                let members: usize = cast.cast.len();
                assert(index < members);
                go_on(movie_id, cast, index + 1)
            },
            Event::QueryFailed => stop(WriterError::Query),
            _ => stop(WriterError::Unexpected),
        },
    }
}

/// The writer: how to connect to the store, and where the work stands.
pub struct DatabaseWriter {
    connection: String,
    phase: Phase,
}

impl DatabaseWriter {
    #[verifier::type_invariant]
    spec fn well_formed(self) -> bool {
        self.phase.well_formed()
    }

    /// Where the writer stands.
    pub closed spec fn phase(self) -> WriterPhase {
        self.phase.model()
    }

    /// The parameters with which the writer's store is connected to.
    pub closed spec fn connection(self) -> Seq<char> {
        self.connection@
    }

    /// A writer for the store that `config` names. Nothing is applied or
    /// written yet.
    pub fn new(config: &Config) -> (writer: DatabaseWriter)
        ensures
            writer.phase() == WriterPhase::Migrating,
            writer.phase().well_formed(),
            writer.connection() == connection_string_of(config@),
    {
        DatabaseWriter { connection: config.connection_string(), phase: Phase::Migrating }
    }

    /// The parameters with which to connect to the store.
    pub fn connection_string(&self) -> (r: &str)
        ensures
            r@ == self.connection(),
    {
        self.connection.as_str()
    }

    /// Takes note of how a run of the migrations ended, and says what to do
    /// next. The first run must have succeeded before packets are written; a
    /// later run, between two packets, changes nothing where it succeeds.
    pub fn run_migrations(&mut self, applied: bool) -> (action: Action)
        ensures
            (final(self).phase(), action@) == migrate_step(old(self).phase(), applied),
            final(self).phase().well_formed(),
            final(self).connection() == old(self).connection(),
    {
        let mut phase = Phase::Failed(WriterError::Unexpected);
        core::mem::swap(&mut self.phase, &mut phase);
        let (next, action) = match phase {
            Phase::Failed(error) => stop(error),
            Phase::Migrating | Phase::Idle => if applied {
                (Phase::Idle, Action::Receive)
            } else {
                stop(WriterError::Migration)
            },
            _ => stop(WriterError::Unexpected),
        };
        self.phase = next;
        action
    }

    /// Takes note of an event, and says what to do next.
    pub fn run(&mut self, event: Event) -> (action: Action)
        ensures
            (final(self).phase(), action@) == step(old(self).phase(), event@),
            old(self).phase().well_formed(),
            final(self).phase().well_formed(),
            final(self).connection() == old(self).connection(),
    {
        proof {
            use_type_invariant(&*self);
        }
        let mut phase = Phase::Failed(WriterError::Unexpected);
        core::mem::swap(&mut self.phase, &mut phase);
        let (next, action) = advance(phase, event);
        self.phase = next;
        action
    }
}

/// The writer's steps over a run of events: the phase it ends in and the
/// actions it asked for, one for each event.
pub open spec fn run_events(phase: WriterPhase, events: Seq<EventView>) -> (
    WriterPhase,
    Seq<ActionView>,
)
    decreases events.len(),
{
    if events.len() == 0 {
        (phase, Seq::empty())
    } else {
        let first = step(phase, events[0]);
        let rest = run_events(first.0, events.drop_first());
        (rest.0, seq![first.1] + rest.1)
    }
}

/// The answers of a store that executes the statements for the cast from
/// member `from` on: for each member the identifier of the person, then the
/// empty answer to the link.
pub open spec fn cast_events(person_ids: Seq<int>, from: int) -> Seq<EventView>
    decreases person_ids.len() - from,
{
    if from < 0 || from >= person_ids.len() {
        Seq::empty()
    } else {
        seq![EventView::Rows(seq![person_ids[from]]), EventView::Rows(Seq::empty())] + cast_events(
            person_ids,
            from + 1,
        )
    }
}

/// What the writer asks for from the moment it turns to member `from` of the
/// cast: for each member the upsert of the person and then the link to the
/// movie, and after the last member the next packet.
pub open spec fn cast_actions(
    movie_id: int,
    cast: Seq<CastMemberView>,
    person_ids: Seq<int>,
    from: int,
) -> Seq<ActionView>
    decreases cast.len() - from,
{
    if from < 0 || from >= cast.len() {
        seq![ActionView::Receive]
    } else {
        seq![
            ActionView::Execute(person_statement(cast[from])),
            ActionView::Execute(link_statement(movie_id, person_ids[from], cast[from])),
        ] + cast_actions(movie_id, cast, person_ids, from + 1)
    }
}

/// The events of one packet at a store that executes every statement: the
/// packet, the identifier of its movie, and the answers for its cast.
pub open spec fn packet_events(packet: PacketView, movie_id: int, person_ids: Seq<int>) -> Seq<
    EventView,
> {
    seq![EventView::Received(packet), EventView::Rows(seq![movie_id])] + cast_events(person_ids, 0)
}

/// What the writer asks for over one packet: the upsert of the movie, then
/// what the cast takes.
pub open spec fn packet_actions(packet: PacketView, movie_id: int, person_ids: Seq<int>) -> Seq<
    ActionView,
> {
    seq![ActionView::Execute(StatementView::UpsertMovie { details: packet.movie_details })]
        + cast_actions(movie_id, packet.cast, person_ids, 0)
}

proof fn lemma_run_two(phase: WriterPhase, first: EventView, second: EventView, rest: Seq<EventView>)
    ensures
        ({
            let one = step(phase, first);
            let two = step(one.0, second);
            let tail = run_events(two.0, rest);
            run_events(phase, seq![first, second] + rest) == (tail.0, seq![one.1, two.1] + tail.1)
        }),
{
    let events = seq![first, second] + rest;
    let one = step(phase, first);
    let two = step(one.0, second);
    let tail = run_events(two.0, rest);
    assert(events[0] == first);
    assert(events.drop_first() =~= seq![second] + rest);
    assert(events.drop_first()[0] == second);
    assert(events.drop_first().drop_first() =~= rest);
    assert(run_events(one.0, events.drop_first()) == (tail.0, seq![two.1] + tail.1));
    assert(seq![one.1] + (seq![two.1] + tail.1) =~= seq![one.1, two.1] + tail.1);
}

proof fn lemma_cast_run(movie_id: int, cast: Seq<CastMemberView>, person_ids: Seq<int>, from: int)
    requires
        person_ids.len() == cast.len(),
        0 <= from <= cast.len(),
    ensures
        ({
            let turn = continue_cast(movie_id, cast, from);
            let run = run_events(turn.0, cast_events(person_ids, from));
            &&& run.0 == WriterPhase::Idle
            &&& seq![turn.1] + run.1 == cast_actions(movie_id, cast, person_ids, from)
        }),
    decreases cast.len() - from,
{
    let turn = continue_cast(movie_id, cast, from);
    if from < cast.len() {
        let answer = EventView::Rows(seq![person_ids[from]]);
        let done = EventView::Rows(Seq::empty());
        let rest = cast_events(person_ids, from + 1);
        lemma_run_two(turn.0, answer, done, rest);
        lemma_cast_run(movie_id, cast, person_ids, from + 1);
        let one = step(turn.0, answer);
        let two = step(one.0, done);
        let tail = run_events(two.0, rest);
        assert(two == continue_cast(movie_id, cast, from + 1));
        assert(seq![turn.1] + (seq![one.1, two.1] + tail.1) =~= seq![turn.1, one.1] + (seq![two.1]
            + tail.1));
    } else {
        assert(cast_events(person_ids, from) =~= Seq::<EventView>::empty());
        assert(seq![turn.1] + Seq::<ActionView>::empty() =~= seq![ActionView::Receive]);
    }
}

/// A packet is written in full and in order. A writer that waits for a
/// packet, at a store that executes every statement and returns `movie_id`
/// for the movie and `person_ids[i]` for member `i` of the cast, asks for the
/// upsert of the movie, then for each member of the cast in its order for
/// the upsert of the person and the link of that person to `movie_id`, and
/// then waits for the next packet.
pub proof fn law_packet_is_written_in_order(packet: PacketView, movie_id: int, person_ids: Seq<int>)
    requires
        person_ids.len() == packet.cast.len(),
    ensures
        run_events(WriterPhase::Idle, packet_events(packet, movie_id, person_ids)) == (
            WriterPhase::Idle,
            packet_actions(packet, movie_id, person_ids),
        ),
{
    let received = EventView::Received(packet);
    let answer = EventView::Rows(seq![movie_id]);
    let rest = cast_events(person_ids, 0);
    lemma_run_two(WriterPhase::Idle, received, answer, rest);
    lemma_cast_run(movie_id, packet.cast, person_ids, 0);
    let one = step(WriterPhase::Idle, received);
    let two = step(one.0, answer);
    let tail = run_events(two.0, rest);
    assert(two == continue_cast(movie_id, packet.cast, 0));
    assert(seq![one.1, two.1] + tail.1 =~= seq![one.1] + (seq![two.1] + tail.1));
}

/// A writer that has failed stays failed: whatever arrives, it asks to stop
/// with the error it failed with, and executes nothing.
pub proof fn law_failure_is_final(error: WriterError, events: Seq<EventView>)
    ensures
        run_events(WriterPhase::Failed(error), events).0 == WriterPhase::Failed(error),
        run_events(WriterPhase::Failed(error), events).1.len() == events.len(),
        forall|i: int|
            0 <= i < events.len() ==> #[trigger] run_events(WriterPhase::Failed(error), events).1[i]
                == ActionView::Stop(error),
    decreases events.len(),
{
    if events.len() > 0 {
        law_failure_is_final(error, events.drop_first());
    }
}

/// No cast is written for a movie that the store gave no row. Where the
/// upsert of a packet's movie returns no row, the writer fails with
/// `NoMovieInserted`, and in no later step does it execute a statement.
pub proof fn law_no_cast_without_movie(packet: PacketView, later: Seq<EventView>)
    ensures
        step(WriterPhase::Movie { packet }, EventView::Rows(Seq::empty())) == fail(
            WriterError::NoMovieInserted,
        ),
        forall|i: int|
            0 <= i < later.len() ==> #[trigger] run_events(
                step(WriterPhase::Movie { packet }, EventView::Rows(Seq::empty())).0,
                later,
            ).1[i] == ActionView::Stop(WriterError::NoMovieInserted),
{
    law_failure_is_final(WriterError::NoMovieInserted, later);
}

/// A link is only ever asked for with the identifier that the store
/// returned for the movie of the packet at hand: in the step that asks for a
/// link, the writer was upserting a person for that movie.
pub proof fn law_link_uses_returned_movie(phase: WriterPhase, event: EventView)
    requires
        step(phase, event).1 matches ActionView::Execute(StatementView::UpsertCastLink { .. }),
    ensures
        phase matches WriterPhase::Person { movie_id, cast, index } && step(phase, event)
            == (
            WriterPhase::Link { movie_id, cast, index },
            ActionView::Execute(link_statement(movie_id, event->Rows_0[0], cast[index])),
        ),
{
}

/// What a store that executes every statement returns over one packet: the
/// identifier of the movie and, for each member of the cast, the identifier
/// of the person.
pub struct Answers {
    pub movie_id: int,
    pub person_ids: Seq<int>,
}

/// The events of the packets from packet `from` on, one packet after the
/// other, at a store that executes every statement.
pub open spec fn packets_events(packets: Seq<PacketView>, answers: Seq<Answers>, from: int) -> Seq<
    EventView,
>
    decreases packets.len() - from,
{
    if from < 0 || from >= packets.len() {
        Seq::empty()
    } else {
        packet_events(packets[from], answers[from].movie_id, answers[from].person_ids)
            + packets_events(packets, answers, from + 1)
    }
}

/// What the writer asks for over the packets from packet `from` on: for each
/// packet in turn all that the packet takes, ending with the wait for the
/// next.
pub open spec fn packets_actions(packets: Seq<PacketView>, answers: Seq<Answers>, from: int) -> Seq<
    ActionView,
>
    decreases packets.len() - from,
{
    if from < 0 || from >= packets.len() {
        Seq::empty()
    } else {
        packet_actions(packets[from], answers[from].movie_id, answers[from].person_ids)
            + packets_actions(packets, answers, from + 1)
    }
}

/// A run of events can be cut in two: the writer's steps over the whole are
/// its steps over the first part and then, from where those end, over the
/// second.
pub proof fn lemma_run_in_parts(phase: WriterPhase, first: Seq<EventView>, second: Seq<EventView>)
    ensures
        ({
            let one = run_events(phase, first);
            let two = run_events(one.0, second);
            run_events(phase, first + second) == (two.0, one.1 + two.1)
        }),
    decreases first.len(),
{
    let one = run_events(phase, first);
    let two = run_events(one.0, second);
    if first.len() == 0 {
        assert(first + second =~= second);
        assert(one.1 + two.1 =~= two.1);
    } else {
        let head = step(phase, first[0]);
        lemma_run_in_parts(head.0, first.drop_first(), second);
        assert((first + second)[0] == first[0]);
        assert((first + second).drop_first() =~= first.drop_first() + second);
        let rest = run_events(head.0, first.drop_first());
        assert(seq![head.1] + (rest.1 + two.1) =~= (seq![head.1] + rest.1) + two.1);
    }
}

/// Every packet is written, once, and in the order in which the channel
/// hands the packets out. Over any number of packets, at a store that
/// executes every statement, a writer that waits for a packet asks for all
/// that the first packet takes, then for all that the second takes, and so
/// on: no statement of a later packet comes before the last statement of an
/// earlier one. After the last packet it waits again; and when the channel
/// is then closed, it stops with `ChannelClosed`, all packets written.
pub proof fn law_packets_are_written_in_order(
    packets: Seq<PacketView>,
    answers: Seq<Answers>,
    from: int,
)
    requires
        answers.len() == packets.len(),
        0 <= from <= packets.len(),
        forall|i: int|
            0 <= i < packets.len() ==> (#[trigger] answers[i]).person_ids.len()
                == packets[i].cast.len(),
    ensures
        run_events(WriterPhase::Idle, packets_events(packets, answers, from)) == (
            WriterPhase::Idle,
            packets_actions(packets, answers, from),
        ),
        run_events(
            WriterPhase::Idle,
            packets_events(packets, answers, from) + seq![EventView::Closed],
        ) == (
            WriterPhase::Failed(WriterError::ChannelClosed),
            packets_actions(packets, answers, from) + seq![
                ActionView::Stop(WriterError::ChannelClosed),
            ],
        ),
    decreases packets.len() - from,
{
    let closed = seq![EventView::Closed];
    if from < packets.len() {
        let first = packet_events(packets[from], answers[from].movie_id, answers[from].person_ids);
        let rest = packets_events(packets, answers, from + 1);
        law_packet_is_written_in_order(
            packets[from],
            answers[from].movie_id,
            answers[from].person_ids,
        );
        law_packets_are_written_in_order(packets, answers, from + 1);
        lemma_run_in_parts(WriterPhase::Idle, first, rest);
    }
    lemma_run_in_parts(WriterPhase::Idle, packets_events(packets, answers, from), closed);
    assert(closed[0] == EventView::Closed);
    assert(closed.drop_first() =~= Seq::<EventView>::empty());
    assert(run_events(WriterPhase::Failed(WriterError::ChannelClosed), closed.drop_first()) == (
        WriterPhase::Failed(WriterError::ChannelClosed),
        Seq::<ActionView>::empty(),
    ));
    assert(run_events(WriterPhase::Idle, closed) == (
        WriterPhase::Failed(WriterError::ChannelClosed),
        seq![ActionView::Stop(WriterError::ChannelClosed)] + Seq::<ActionView>::empty(),
    ));
    assert(seq![ActionView::Stop(WriterError::ChannelClosed)] + Seq::<ActionView>::empty() =~= seq![
        ActionView::Stop(WriterError::ChannelClosed),
    ]);
}

} // verus!
