//! The three tables of the store and what the writer's statements do to
//! them, kept in memory.
//!
//! `movies` and `persons` each give a row an identifier of their own and
//! hold at most one row for an external identifier; `movie_cast` holds at
//! most one row for a movie and a person, and only for a movie and a person
//! that have a row. The time at which a row was written is not modelled.

use crate::records::{MovieDetails, MovieDetailsView};
use crate::writer::{rows_of, Statement, StatementView};
use vstd::prelude::*;

verus! {

/// A row of `movies`.
#[derive(Debug, PartialEq, Eq)]
pub struct MovieRow {
    pub movie_id: i32,
    pub tmdb_id: i32,
    pub title: String,
    pub release_date: String,
    pub runtime_minutes: i32,
}

/// Mathematical model of [`MovieRow`].
pub struct MovieRowView {
    pub movie_id: int,
    pub tmdb_id: int,
    pub title: Seq<char>,
    pub release_date: Seq<char>,
    pub runtime_minutes: int,
}

impl View for MovieRow {
    type V = MovieRowView;

    open spec fn view(&self) -> MovieRowView {
        MovieRowView {
            movie_id: self.movie_id as int,
            tmdb_id: self.tmdb_id as int,
            title: self.title@,
            release_date: self.release_date@,
            runtime_minutes: self.runtime_minutes as int,
        }
    }
}

/// A row of `persons`.
#[derive(Debug, PartialEq, Eq)]
pub struct PersonRow {
    pub person_id: i32,
    pub tmdb_id: i32,
    pub name: String,
}

/// Mathematical model of [`PersonRow`].
pub struct PersonRowView {
    pub person_id: int,
    pub tmdb_id: int,
    pub name: Seq<char>,
}

impl View for PersonRow {
    type V = PersonRowView;

    open spec fn view(&self) -> PersonRowView {
        PersonRowView {
            person_id: self.person_id as int,
            tmdb_id: self.tmdb_id as int,
            name: self.name@,
        }
    }
}

/// A row of `movie_cast`.
#[derive(Debug, PartialEq, Eq)]
pub struct CastRow {
    pub movie_id: i32,
    pub person_id: i32,
    pub character_name: String,
}

/// Mathematical model of [`CastRow`].
pub struct CastRowView {
    pub movie_id: int,
    pub person_id: int,
    pub character_name: Seq<char>,
}

impl View for CastRow {
    type V = CastRowView;

    open spec fn view(&self) -> CastRowView {
        CastRowView {
            movie_id: self.movie_id as int,
            person_id: self.person_id as int,
            character_name: self.character_name@,
        }
    }
}

/// Why the store refused a statement.
#[derive(Debug, Clone, Copy, PartialEq, Eq, Structural)]
pub enum StoreError {
    /// The link names a movie or a person that has no row.
    ForeignKey,
    /// The table has no identifier left for another row.
    Exhausted,
}

/// The rows of the three tables, each in the order in which they were
/// inserted, and the identifiers that the next new movie and person get.
pub struct TablesView {
    pub movies: Seq<MovieRowView>,
    pub persons: Seq<PersonRowView>,
    pub movie_cast: Seq<CastRowView>,
    pub next_movie_id: int,
    pub next_person_id: int,
}

/// Row `i` of `movies` is the one of the external identifier `tmdb_id`.
pub open spec fn movie_at(movies: Seq<MovieRowView>, i: int, tmdb_id: int) -> bool {
    0 <= i < movies.len() && movies[i].tmdb_id == tmdb_id
}

/// Row `i` of `movies` is the one that the store knows as `movie_id`.
pub open spec fn movie_known_at(movies: Seq<MovieRowView>, i: int, movie_id: int) -> bool {
    0 <= i < movies.len() && movies[i].movie_id == movie_id
}

/// Row `i` of `persons` is the one of the external identifier `tmdb_id`.
pub open spec fn person_at(persons: Seq<PersonRowView>, i: int, tmdb_id: int) -> bool {
    0 <= i < persons.len() && persons[i].tmdb_id == tmdb_id
}

/// Row `i` of `persons` is the one that the store knows as `person_id`.
pub open spec fn person_known_at(persons: Seq<PersonRowView>, i: int, person_id: int) -> bool {
    0 <= i < persons.len() && persons[i].person_id == person_id
}

/// Row `i` of `movie_cast` links the movie `movie_id` and the person
/// `person_id`.
pub open spec fn link_at(links: Seq<CastRowView>, i: int, movie_id: int, person_id: int) -> bool {
    0 <= i < links.len() && links[i].movie_id == movie_id && links[i].person_id == person_id
}

impl TablesView {
    /// No row yet, and 1 for the first identifier of either table.
    pub open spec fn empty() -> TablesView {
        TablesView {
            movies: Seq::empty(),
            persons: Seq::empty(),
            movie_cast: Seq::empty(),
            next_movie_id: 1,
            next_person_id: 1,
        }
    }

    /// The constraints of the schema hold: the keys are unique, the
    /// identifiers in use lie below the next one to be given, and every
    /// link names a movie and a person that have a row.
    pub open spec fn valid(self) -> bool {
        &&& 1 <= self.next_movie_id <= i32::MAX
        &&& 1 <= self.next_person_id <= i32::MAX
        &&& forall|i: int|
            0 <= i < self.movies.len() ==> 1 <= (#[trigger] self.movies[i]).movie_id
                < self.next_movie_id
        &&& forall|i: int, j: int|
            0 <= i < j < self.movies.len() ==> (#[trigger] self.movies[i]).tmdb_id != (
            #[trigger] self.movies[j]).tmdb_id && self.movies[i].movie_id
                != self.movies[j].movie_id
        &&& forall|i: int|
            0 <= i < self.persons.len() ==> 1 <= (#[trigger] self.persons[i]).person_id
                < self.next_person_id
        &&& forall|i: int, j: int|
            0 <= i < j < self.persons.len() ==> (#[trigger] self.persons[i]).tmdb_id != (
            #[trigger] self.persons[j]).tmdb_id && self.persons[i].person_id
                != self.persons[j].person_id
        &&& forall|i: int, j: int|
            0 <= i < j < self.movie_cast.len() ==> !((#[trigger] self.movie_cast[i]).movie_id == (
            #[trigger] self.movie_cast[j]).movie_id && self.movie_cast[i].person_id
                == self.movie_cast[j].person_id)
        &&& forall|i: int|
            0 <= i < self.movie_cast.len() ==> self.has_movie_id(
                (#[trigger] self.movie_cast[i]).movie_id,
            ) && self.has_person_id(self.movie_cast[i].person_id)
    }

    /// `movies` has a row for the external identifier `tmdb_id`.
    pub open spec fn has_movie(self, tmdb_id: int) -> bool {
        exists|i: int| movie_at(self.movies, i, tmdb_id)
    }

    /// The place in `movies` of the row for `tmdb_id`.
    pub open spec fn movie_place(self, tmdb_id: int) -> int {
        choose|i: int| movie_at(self.movies, i, tmdb_id)
    }

    /// `movies` has a row that the store knows as `movie_id`.
    pub open spec fn has_movie_id(self, movie_id: int) -> bool {
        exists|i: int| movie_known_at(self.movies, i, movie_id)
    }

    /// `persons` has a row for the external identifier `tmdb_id`.
    pub open spec fn has_person(self, tmdb_id: int) -> bool {
        exists|i: int| person_at(self.persons, i, tmdb_id)
    }

    /// The place in `persons` of the row for `tmdb_id`.
    pub open spec fn person_place(self, tmdb_id: int) -> int {
        choose|i: int| person_at(self.persons, i, tmdb_id)
    }

    /// `persons` has a row that the store knows as `person_id`.
    pub open spec fn has_person_id(self, person_id: int) -> bool {
        exists|i: int| person_known_at(self.persons, i, person_id)
    }

    /// `movie_cast` has a row for this movie and this person.
    pub open spec fn has_link(self, movie_id: int, person_id: int) -> bool {
        exists|i: int| link_at(self.movie_cast, i, movie_id, person_id)
    }

    /// The place in `movie_cast` of the row for this movie and this person.
    pub open spec fn link_place(self, movie_id: int, person_id: int) -> int {
        choose|i: int| link_at(self.movie_cast, i, movie_id, person_id)
    }

    /// The row of `movies` for the external identifier `tmdb_id`.
    pub open spec fn movie_of(self, tmdb_id: int) -> MovieRowView {
        self.movies[self.movie_place(tmdb_id)]
    }

    /// The row of `persons` for the external identifier `tmdb_id`.
    pub open spec fn person_of(self, tmdb_id: int) -> PersonRowView {
        self.persons[self.person_place(tmdb_id)]
    }

    /// The row of `movie_cast` for this movie and this person.
    pub open spec fn link_of(self, movie_id: int, person_id: int) -> CastRowView {
        self.movie_cast[self.link_place(movie_id, person_id)]
    }

    /// The upsert of a movie: the row of its external identifier keeps its
    /// place and its `movie_id` and takes the other columns from `details`;
    /// where there is no such row, one is added at the end under the next
    /// identifier. The `movie_id` of the row is returned.
    pub open spec fn upsert_movie(self, details: MovieDetailsView) -> (TablesView, Result<Seq<int>, StoreError>) {
        if self.has_movie(details.id) {
            let place = self.movie_place(details.id);
            let row = MovieRowView {
                movie_id: self.movies[place].movie_id,
                tmdb_id: details.id,
                title: details.original_title,
                release_date: details.release_date,
                runtime_minutes: details.runtime,
            };
            (TablesView { movies: self.movies.update(place, row), ..self }, Ok(seq![row.movie_id]))
        } else if self.next_movie_id >= i32::MAX {
            (self, Err(StoreError::Exhausted))
        } else {
            let row = MovieRowView {
                movie_id: self.next_movie_id,
                tmdb_id: details.id,
                title: details.original_title,
                release_date: details.release_date,
                runtime_minutes: details.runtime,
            };
            (
                TablesView {
                    movies: self.movies.push(row),
                    next_movie_id: self.next_movie_id + 1,
                    ..self
                },
                Ok(seq![row.movie_id]),
            )
        }
    }

    /// The upsert of a person, in the way of the upsert of a movie.
    pub open spec fn upsert_person(self, tmdb_id: int, name: Seq<char>) -> (TablesView, Result<Seq<int>, StoreError>) {
        if self.has_person(tmdb_id) {
            let place = self.person_place(tmdb_id);
            let row = PersonRowView { person_id: self.persons[place].person_id, tmdb_id, name };
            (
                TablesView { persons: self.persons.update(place, row), ..self },
                Ok(seq![row.person_id]),
            )
        } else if self.next_person_id >= i32::MAX {
            (self, Err(StoreError::Exhausted))
        } else {
            let row = PersonRowView { person_id: self.next_person_id, tmdb_id, name };
            (
                TablesView {
                    persons: self.persons.push(row),
                    next_person_id: self.next_person_id + 1,
                    ..self
                },
                Ok(seq![row.person_id]),
            )
        }
    }

    /// The upsert of a link: refused where the movie or the person has no
    /// row. Else the row of the two keeps its place and takes the character
    /// name; where there is no such row, one is added at the end. No row is
    /// returned.
    pub open spec fn upsert_link(self, movie_id: int, person_id: int, character_name: Seq<char>) -> (TablesView, Result<Seq<int>, StoreError>) {
        let row = CastRowView { movie_id, person_id, character_name };
        if !self.has_movie_id(movie_id) || !self.has_person_id(person_id) {
            (self, Err(StoreError::ForeignKey))
        } else if self.has_link(movie_id, person_id) {
            let place = self.link_place(movie_id, person_id);
            (TablesView { movie_cast: self.movie_cast.update(place, row), ..self }, Ok(Seq::empty()))
        } else {
            (TablesView { movie_cast: self.movie_cast.push(row), ..self }, Ok(Seq::empty()))
        }
    }

    /// What a statement does to the tables, and what the store answers: the
    /// first column of the rows that the statement returns, or a refusal,
    /// which leaves the tables as they were.
    pub open spec fn apply(self, statement: StatementView) -> (TablesView, Result<Seq<int>, StoreError>) {
        match statement {
            StatementView::UpsertMovie { details } => self.upsert_movie(details),
            StatementView::UpsertPerson { tmdb_id, name } => self.upsert_person(tmdb_id, name),
            StatementView::UpsertCastLink {
                movie_id,
                person_id,
                character_name,
            } => self.upsert_link(movie_id, person_id, character_name),
        }
    }
}

/// The upsert of a movie keeps the constraints of the schema.
pub proof fn lemma_upsert_movie_valid(tables: TablesView, details: MovieDetailsView)
    requires
        tables.valid(),
    ensures
        tables.upsert_movie(details).0.valid(),
{
    let after = tables.upsert_movie(details).0;
    if tables.has_movie(details.id) {
        let place = tables.movie_place(details.id);
        assert(movie_at(tables.movies, place, details.id));
        assert forall|i: int| 0 <= i < after.movies.len() implies (#[trigger] after.movies[i]).movie_id
            == tables.movies[i].movie_id && after.movies[i].tmdb_id == tables.movies[i].tmdb_id by {}
    } else if tables.next_movie_id < i32::MAX {
        assert forall|i: int| 0 <= i < tables.movies.len() implies (#[trigger] tables.movies[i]).tmdb_id
            != details.id by {
            assert(!movie_at(tables.movies, i, details.id));
        }
    }
    assert(after.persons == tables.persons);
    assert forall|i: int| 0 <= i < after.movie_cast.len() implies after.has_movie_id(
        (#[trigger] after.movie_cast[i]).movie_id,
    ) && after.has_person_id(after.movie_cast[i].person_id) by {
        let movie_id = tables.movie_cast[i].movie_id;
        assert(after.movie_cast[i] == tables.movie_cast[i]);
        assert(tables.has_movie_id(movie_id));
        let k = choose|k: int| movie_known_at(tables.movies, k, movie_id);
        assert(movie_known_at(tables.movies, k, movie_id));
        assert(movie_known_at(after.movies, k, movie_id));
        assert(tables.has_person_id(tables.movie_cast[i].person_id));
    }
}

/// The upsert of a person keeps the constraints of the schema.
pub proof fn lemma_upsert_person_valid(tables: TablesView, tmdb_id: int, name: Seq<char>)
    requires
        tables.valid(),
    ensures
        tables.upsert_person(tmdb_id, name).0.valid(),
{
    let after = tables.upsert_person(tmdb_id, name).0;
    if tables.has_person(tmdb_id) {
        let place = tables.person_place(tmdb_id);
        assert(person_at(tables.persons, place, tmdb_id));
        assert forall|i: int| 0 <= i < after.persons.len() implies (#[trigger] after.persons[i]).person_id
            == tables.persons[i].person_id && after.persons[i].tmdb_id
            == tables.persons[i].tmdb_id by {}
    } else if tables.next_person_id < i32::MAX {
        assert forall|i: int| 0 <= i < tables.persons.len() implies (
        #[trigger] tables.persons[i]).tmdb_id != tmdb_id by {
            assert(!person_at(tables.persons, i, tmdb_id));
        }
    }
    assert(after.movies == tables.movies);
    assert forall|i: int| 0 <= i < after.movie_cast.len() implies after.has_movie_id(
        (#[trigger] after.movie_cast[i]).movie_id,
    ) && after.has_person_id(after.movie_cast[i].person_id) by {
        let person_id = tables.movie_cast[i].person_id;
        assert(after.movie_cast[i] == tables.movie_cast[i]);
        assert(tables.has_person_id(person_id));
        let k = choose|k: int| person_known_at(tables.persons, k, person_id);
        assert(person_known_at(tables.persons, k, person_id));
        assert(person_known_at(after.persons, k, person_id));
        assert(tables.has_movie_id(tables.movie_cast[i].movie_id));
    }
}

/// The upsert of a link keeps the constraints of the schema.
pub proof fn lemma_upsert_link_valid(
    tables: TablesView,
    movie_id: int,
    person_id: int,
    character_name: Seq<char>,
)
    requires
        tables.valid(),
    ensures
        tables.upsert_link(movie_id, person_id, character_name).0.valid(),
{
    let after = tables.upsert_link(movie_id, person_id, character_name).0;
    if tables.has_movie_id(movie_id) && tables.has_person_id(person_id) {
        assert(after.movies == tables.movies && after.persons == tables.persons);
        assert forall|i: int| 0 <= i < after.movie_cast.len() implies after.has_movie_id(
            (#[trigger] after.movie_cast[i]).movie_id,
        ) && after.has_person_id(after.movie_cast[i].person_id) by {
            if i < tables.movie_cast.len() && after.movie_cast[i] == tables.movie_cast[i] {
                assert(tables.has_movie_id(tables.movie_cast[i].movie_id));
                assert(tables.has_person_id(tables.movie_cast[i].person_id));
            } else {
                assert(after.movie_cast[i].movie_id == movie_id);
                assert(after.movie_cast[i].person_id == person_id);
            }
        }
        if tables.has_link(movie_id, person_id) {
            let place = tables.link_place(movie_id, person_id);
            assert(link_at(tables.movie_cast, place, movie_id, person_id));
            assert forall|i: int| 0 <= i < after.movie_cast.len() implies (
            #[trigger] after.movie_cast[i]).movie_id == tables.movie_cast[i].movie_id
                && after.movie_cast[i].person_id == tables.movie_cast[i].person_id by {}
        } else {
            assert forall|i: int| 0 <= i < tables.movie_cast.len() implies !((
            #[trigger] tables.movie_cast[i]).movie_id == movie_id && tables.movie_cast[i].person_id
                == person_id) by {
                assert(!link_at(tables.movie_cast, i, movie_id, person_id));
            }
        }
    }
}

/// Whatever the statement, the constraints of the schema hold after it if
/// they held before.
pub proof fn law_apply_keeps_valid(tables: TablesView, statement: StatementView)
    requires
        tables.valid(),
    ensures
        tables.apply(statement).0.valid(),
{
    match statement {
        StatementView::UpsertMovie { details } => lemma_upsert_movie_valid(tables, details),
        StatementView::UpsertPerson { tmdb_id, name } => lemma_upsert_person_valid(
            tables,
            tmdb_id,
            name,
        ),
        StatementView::UpsertCastLink { movie_id, person_id, character_name } => {
            lemma_upsert_link_valid(tables, movie_id, person_id, character_name)
        },
    }
}

/// A statement that the store refuses leaves the tables as they were.
pub proof fn law_refusal_changes_nothing(tables: TablesView, statement: StatementView)
    requires
        tables.apply(statement).1 is Err,
    ensures
        tables.apply(statement).0 == tables,
{
}

/// After the upsert of a movie, `movies` has exactly one row for its
/// external identifier, at the place that is returned as `place`: it holds
/// the values that were upserted, and the statement returned its `movie_id`.
/// Every other row is as it was.
pub proof fn law_upsert_movie_leaves_one_row(tables: TablesView, details: MovieDetailsView) -> (place:
    int)
    requires
        tables.valid(),
        tables.upsert_movie(details).1 is Ok,
    ensures
        ({
            let after = tables.upsert_movie(details).0;
            &&& movie_at(after.movies, place, details.id)
            &&& forall|i: int| movie_at(after.movies, i, details.id) ==> i == place
            &&& after.movies[place].title == details.original_title
            &&& after.movies[place].release_date == details.release_date
            &&& after.movies[place].runtime_minutes == details.runtime
            &&& tables.upsert_movie(details).1 == Ok::<Seq<int>, StoreError>(
                seq![after.movies[place].movie_id],
            )
            &&& forall|i: int|
                0 <= i < tables.movies.len() && i != place ==> after.movies[i] == tables.movies[i]
            &&& tables.has_movie(details.id) ==> after.movies.len() == tables.movies.len()
                && after.movies[place].movie_id == tables.movies[place].movie_id
            &&& !tables.has_movie(details.id) ==> after.movies.len() == tables.movies.len() + 1
        }),
{
    let after = tables.upsert_movie(details).0;
    lemma_upsert_movie_valid(tables, details);
    let place = if tables.has_movie(details.id) {
        tables.movie_place(details.id)
    } else {
        tables.movies.len() as int
    };
    if tables.has_movie(details.id) {
        assert(movie_at(tables.movies, place, details.id));
    }
    assert(movie_at(after.movies, place, details.id));
    assert forall|i: int| movie_at(after.movies, i, details.id) implies i == place by {
        if i < place {
            assert(after.movies[i].tmdb_id != after.movies[place].tmdb_id);
        } else if place < i {
            assert(after.movies[place].tmdb_id != after.movies[i].tmdb_id);
        }
    }
    place
}

/// Upserting a movie twice under one external identifier, with whatever
/// values, leaves one row for it: the second upsert succeeds where the first
/// did, adds no row, returns the same `movie_id` and leaves the values of
/// the second.
pub proof fn law_second_upsert_overwrites(
    tables: TablesView,
    first: MovieDetailsView,
    second: MovieDetailsView,
) -> (place: int)
    requires
        tables.valid(),
        first.id == second.id,
        tables.upsert_movie(first).1 is Ok,
    ensures
        ({
            let once = tables.upsert_movie(first);
            let twice = once.0.upsert_movie(second);
            &&& twice.1 == once.1
            &&& twice.0.movies.len() == once.0.movies.len()
            &&& movie_at(twice.0.movies, place, second.id)
            &&& forall|i: int| movie_at(twice.0.movies, i, second.id) ==> i == place
            &&& twice.0.movies[place].title == second.original_title
            &&& twice.0.movies[place].release_date == second.release_date
            &&& twice.0.movies[place].runtime_minutes == second.runtime
            &&& twice.0.persons == once.0.persons
            &&& twice.0.movie_cast == once.0.movie_cast
        }),
{
    let once = tables.upsert_movie(first);
    let first_place = law_upsert_movie_leaves_one_row(tables, first);
    lemma_upsert_movie_valid(tables, first);
    assert(movie_at(once.0.movies, first_place, second.id));
    assert(once.0.has_movie(second.id));
    let place = law_upsert_movie_leaves_one_row(once.0, second);
    assert(movie_at(once.0.movies, place, second.id));
    assert(place == first_place);
    place
}

/// A link for a movie that has no row is refused, and nothing is written.
pub proof fn law_link_needs_movie(
    tables: TablesView,
    movie_id: int,
    person_id: int,
    character_name: Seq<char>,
)
    requires
        !tables.has_movie_id(movie_id),
    ensures
        tables.upsert_link(movie_id, person_id, character_name) == (
            tables,
            Err::<Seq<int>, StoreError>(StoreError::ForeignKey),
        ),
{
}

/// In tables that meet the constraints, the row of an external identifier
/// stands at one place only.
pub proof fn lemma_person_place(tables: TablesView, i: int, tmdb_id: int)
    requires
        tables.valid(),
        person_at(tables.persons, i, tmdb_id),
    ensures
        tables.has_person(tmdb_id),
        tables.person_place(tmdb_id) == i,
        tables.person_of(tmdb_id) == tables.persons[i],
{
    let place = tables.person_place(tmdb_id);
    assert(person_at(tables.persons, place, tmdb_id));
    if place < i {
        assert(tables.persons[place].tmdb_id != tables.persons[i].tmdb_id);
    } else if i < place {
        assert(tables.persons[i].tmdb_id != tables.persons[place].tmdb_id);
    }
}

/// In tables that meet the constraints, the row of a movie and a person
/// stands at one place only.
pub proof fn lemma_link_place(tables: TablesView, i: int, movie_id: int, person_id: int)
    requires
        tables.valid(),
        link_at(tables.movie_cast, i, movie_id, person_id),
    ensures
        tables.has_link(movie_id, person_id),
        tables.link_place(movie_id, person_id) == i,
        tables.link_of(movie_id, person_id) == tables.movie_cast[i],
{
    let place = tables.link_place(movie_id, person_id);
    assert(link_at(tables.movie_cast, place, movie_id, person_id));
    if place < i {
        assert(!(tables.movie_cast[place].movie_id == tables.movie_cast[i].movie_id
            && tables.movie_cast[place].person_id == tables.movie_cast[i].person_id));
    } else if i < place {
        assert(!(tables.movie_cast[i].movie_id == tables.movie_cast[place].movie_id
            && tables.movie_cast[i].person_id == tables.movie_cast[place].person_id));
    }
}

/// What the upsert of a person changes and what it leaves: the person has a
/// row with the name that was upserted, under the identifier that is
/// returned; a person that had a row keeps its identifier; every other
/// person's row, every movie and every link is as it was.
pub proof fn lemma_upsert_person_effect(tables: TablesView, tmdb_id: int, name: Seq<char>)
    requires
        tables.valid(),
        tables.upsert_person(tmdb_id, name).1 is Ok,
    ensures
        ({
            let after = tables.upsert_person(tmdb_id, name).0;
            &&& after.valid()
            &&& after.movies == tables.movies
            &&& after.movie_cast == tables.movie_cast
            &&& after.has_person(tmdb_id)
            &&& after.person_of(tmdb_id).name == name
            &&& tables.upsert_person(tmdb_id, name).1 == Ok::<Seq<int>, StoreError>(
                seq![after.person_of(tmdb_id).person_id],
            )
            &&& after.has_person_id(after.person_of(tmdb_id).person_id)
            &&& forall|x: int| #[trigger]
                tables.has_person(x) ==> after.has_person(x) && after.person_of(x).person_id
                    == tables.person_of(x).person_id
            &&& forall|x: int|
                x != tmdb_id ==> (#[trigger] after.has_person(x)) == tables.has_person(x) && (
                tables.has_person(x) ==> after.person_of(x) == tables.person_of(x))
            &&& forall|p: int| #[trigger] tables.has_person_id(p) ==> after.has_person_id(p)
        }),
{
    let after = tables.upsert_person(tmdb_id, name).0;
    lemma_upsert_person_valid(tables, tmdb_id, name);
    let place = if tables.has_person(tmdb_id) {
        tables.person_place(tmdb_id)
    } else {
        tables.persons.len() as int
    };
    if tables.has_person(tmdb_id) {
        assert(person_at(tables.persons, place, tmdb_id));
    }
    assert(person_at(after.persons, place, tmdb_id));
    lemma_person_place(after, place, tmdb_id);
    assert(person_known_at(after.persons, place, after.persons[place].person_id));
    assert forall|x: int| #[trigger] tables.has_person(x) implies after.has_person(x)
        && after.person_of(x).person_id == tables.person_of(x).person_id by {
        let i = tables.person_place(x);
        assert(person_at(tables.persons, i, x));
        assert(person_at(after.persons, i, x));
        lemma_person_place(after, i, x);
    }
    assert forall|x: int| x != tmdb_id implies (#[trigger] after.has_person(x))
        == tables.has_person(x) && (tables.has_person(x) ==> after.person_of(x)
        == tables.person_of(x)) by {
        if tables.has_person(x) {
            let i = tables.person_place(x);
            assert(person_at(tables.persons, i, x));
            assert(person_at(after.persons, i, x));
            lemma_person_place(after, i, x);
        } else if after.has_person(x) {
            let i = after.person_place(x);
            assert(person_at(after.persons, i, x));
            assert(person_at(tables.persons, i, x));
        }
    }
    assert forall|p: int| #[trigger] tables.has_person_id(p) implies after.has_person_id(p) by {
        let k = choose|k: int| person_known_at(tables.persons, k, p);
        assert(person_known_at(tables.persons, k, p));
        assert(person_known_at(after.persons, k, p));
    }
}

/// What the upsert of a link changes and what it leaves: the movie and the
/// person have a row in `movie_cast` with the character name that was
/// upserted; every other link, every movie and every person is as it was.
pub proof fn lemma_upsert_link_effect(
    tables: TablesView,
    movie_id: int,
    person_id: int,
    character_name: Seq<char>,
)
    requires
        tables.valid(),
        tables.upsert_link(movie_id, person_id, character_name).1 is Ok,
    ensures
        ({
            let after = tables.upsert_link(movie_id, person_id, character_name).0;
            &&& after.valid()
            &&& after.movies == tables.movies
            &&& after.persons == tables.persons
            &&& after.next_person_id == tables.next_person_id
            &&& after.has_link(movie_id, person_id)
            &&& after.link_of(movie_id, person_id).character_name == character_name
            &&& forall|m: int, p: int| #[trigger]
                tables.has_link(m, p) ==> after.has_link(m, p)
            &&& forall|m: int, p: int|
                !(m == movie_id && p == person_id) && #[trigger] tables.has_link(m, p)
                    ==> after.link_of(m, p) == tables.link_of(m, p)
        }),
{
    let after = tables.upsert_link(movie_id, person_id, character_name).0;
    lemma_upsert_link_valid(tables, movie_id, person_id, character_name);
    let place = if tables.has_link(movie_id, person_id) {
        tables.link_place(movie_id, person_id)
    } else {
        tables.movie_cast.len() as int
    };
    if tables.has_link(movie_id, person_id) {
        assert(link_at(tables.movie_cast, place, movie_id, person_id));
    }
    assert(link_at(after.movie_cast, place, movie_id, person_id));
    lemma_link_place(after, place, movie_id, person_id);
    assert forall|m: int, p: int| #[trigger] tables.has_link(m, p) implies after.has_link(m, p) by {
        let i = tables.link_place(m, p);
        assert(link_at(tables.movie_cast, i, m, p));
        assert(link_at(after.movie_cast, i, m, p));
    }
    assert forall|m: int, p: int|
        !(m == movie_id && p == person_id) && #[trigger] tables.has_link(m, p) implies after.link_of(
        m,
        p,
    ) == tables.link_of(m, p) by {
        let i = tables.link_place(m, p);
        assert(link_at(tables.movie_cast, i, m, p));
        assert(link_at(after.movie_cast, i, m, p));
        lemma_link_place(after, i, m, p);
    }
}

/// The three tables, in memory.
pub struct Tables {
    movies: Vec<MovieRow>,
    persons: Vec<PersonRow>,
    movie_cast: Vec<CastRow>,
    next_movie_id: i32,
    next_person_id: i32,
}

impl View for Tables {
    type V = TablesView;

    closed spec fn view(&self) -> TablesView {
        TablesView {
            movies: Seq::new(self.movies@.len(), |i: int| self.movies@[i]@),
            persons: Seq::new(self.persons@.len(), |i: int| self.persons@[i]@),
            movie_cast: Seq::new(self.movie_cast@.len(), |i: int| self.movie_cast@[i]@),
            next_movie_id: self.next_movie_id as int,
            next_person_id: self.next_person_id as int,
        }
    }
}

impl Tables {
    /// Tables without a row.
    pub fn new() -> (tables: Tables)
        ensures
            tables@ == TablesView::empty(),
            tables@.valid(),
    {
        let tables = Tables {
            movies: Vec::new(),
            persons: Vec::new(),
            movie_cast: Vec::new(),
            next_movie_id: 1,
            next_person_id: 1,
        };
        assert(tables@.movies =~= Seq::empty());
        assert(tables@.persons =~= Seq::empty());
        assert(tables@.movie_cast =~= Seq::empty());
        tables
    }

    /// Tables without a row, whose first movie and first person get the
    /// given identifiers; none where one of the two is below 1.
    pub fn starting_at(next_movie_id: i32, next_person_id: i32) -> (r: Option<Tables>)
        ensures
            match r {
                Some(tables) => {
                    &&& next_movie_id >= 1
                    &&& next_person_id >= 1
                    &&& tables@ == TablesView {
                        next_movie_id: next_movie_id as int,
                        next_person_id: next_person_id as int,
                        ..TablesView::empty()
                    }
                    &&& tables@.valid()
                },
                None => next_movie_id < 1 || next_person_id < 1,
            },
    {
        if next_movie_id < 1 || next_person_id < 1 {
            return None;
        }
        let tables = Tables {
            movies: Vec::new(),
            persons: Vec::new(),
            movie_cast: Vec::new(),
            next_movie_id,
            next_person_id,
        };
        assert(tables@.movies =~= Seq::empty());
        assert(tables@.persons =~= Seq::empty());
        assert(tables@.movie_cast =~= Seq::empty());
        Some(tables)
    }

    /// The rows of `movies`, in the order in which they were inserted.
    pub fn movies(&self) -> (rows: &Vec<MovieRow>)
        ensures
            rows@.len() == self@.movies.len(),
            forall|i: int| 0 <= i < rows@.len() ==> (#[trigger] rows@[i])@ == self@.movies[i],
    {
        &self.movies
    }

    /// The rows of `persons`, in the order in which they were inserted.
    pub fn persons(&self) -> (rows: &Vec<PersonRow>)
        ensures
            rows@.len() == self@.persons.len(),
            forall|i: int| 0 <= i < rows@.len() ==> (#[trigger] rows@[i])@ == self@.persons[i],
    {
        &self.persons
    }

    /// The rows of `movie_cast`, in the order in which they were inserted.
    pub fn movie_cast(&self) -> (rows: &Vec<CastRow>)
        ensures
            rows@.len() == self@.movie_cast.len(),
            forall|i: int| 0 <= i < rows@.len() ==> (#[trigger] rows@[i])@ == self@.movie_cast[i],
    {
        &self.movie_cast
    }

    fn find_movie(&self, tmdb_id: i32) -> (r: Option<usize>)
        ensures
            match r {
                Some(i) => movie_at(self@.movies, i as int, tmdb_id as int),
                None => !self@.has_movie(tmdb_id as int),
            },
    {
        let mut i: usize = 0;
        while i < self.movies.len()
            invariant
                i <= self.movies@.len(),
                forall|k: int| 0 <= k < i ==> !movie_at(self@.movies, k, tmdb_id as int),
            decreases self.movies@.len() - i,
        {
            if self.movies[i].tmdb_id == tmdb_id {
                return Some(i);
            }
            i += 1;
        }
        None
    }

    fn knows_movie(&self, movie_id: i32) -> (r: bool)
        ensures
            r == self@.has_movie_id(movie_id as int),
    {
        let mut i: usize = 0;
        while i < self.movies.len()
            invariant
                i <= self.movies@.len(),
                forall|k: int| 0 <= k < i ==> !movie_known_at(self@.movies, k, movie_id as int),
            decreases self.movies@.len() - i,
        {
            if self.movies[i].movie_id == movie_id {
                assert(movie_known_at(self@.movies, i as int, movie_id as int));
                return true;
            }
            i += 1;
        }
        false
    }

    fn find_person(&self, tmdb_id: i32) -> (r: Option<usize>)
        ensures
            match r {
                Some(i) => person_at(self@.persons, i as int, tmdb_id as int),
                None => !self@.has_person(tmdb_id as int),
            },
    {
        let mut i: usize = 0;
        while i < self.persons.len()
            invariant
                i <= self.persons@.len(),
                forall|k: int| 0 <= k < i ==> !person_at(self@.persons, k, tmdb_id as int),
            decreases self.persons@.len() - i,
        {
            if self.persons[i].tmdb_id == tmdb_id {
                return Some(i);
            }
            i += 1;
        }
        None
    }

    fn knows_person(&self, person_id: i32) -> (r: bool)
        ensures
            r == self@.has_person_id(person_id as int),
    {
        let mut i: usize = 0;
        while i < self.persons.len()
            invariant
                i <= self.persons@.len(),
                forall|k: int| 0 <= k < i ==> !person_known_at(self@.persons, k, person_id as int),
            decreases self.persons@.len() - i,
        {
            if self.persons[i].person_id == person_id {
                assert(person_known_at(self@.persons, i as int, person_id as int));
                return true;
            }
            i += 1;
        }
        false
    }

    fn find_link(&self, movie_id: i32, person_id: i32) -> (r: Option<usize>)
        ensures
            match r {
                Some(i) => link_at(self@.movie_cast, i as int, movie_id as int, person_id as int),
                None => !self@.has_link(movie_id as int, person_id as int),
            },
    {
        let mut i: usize = 0;
        while i < self.movie_cast.len()
            invariant
                i <= self.movie_cast@.len(),
                forall|k: int|
                    0 <= k < i ==> !link_at(
                        self@.movie_cast,
                        k,
                        movie_id as int,
                        person_id as int,
                    ),
            decreases self.movie_cast@.len() - i,
        {
            if self.movie_cast[i].movie_id == movie_id && self.movie_cast[i].person_id == person_id {
                return Some(i);
            }
            i += 1;
        }
        None
    }

    fn upsert_movie(&mut self, details: &MovieDetails) -> (r: Result<Vec<i32>, StoreError>)
        requires
            old(self)@.valid(),
        ensures
            final(self)@ == old(self)@.upsert_movie(details@).0,
            match r {
                Ok(rows) => old(self)@.upsert_movie(details@).1 == Ok::<Seq<int>, StoreError>(
                    rows_of(rows@),
                ),
                Err(e) => old(self)@.upsert_movie(details@).1 == Err::<Seq<int>, StoreError>(e),
            },
    {
        let ghost before = self@;
        match self.find_movie(details.id) {
            Some(i) => {
                proof {
                    let place = before.movie_place(details@.id);
                    assert(movie_at(before.movies, place, details@.id));
                    assert(before.movies[place].tmdb_id == before.movies[i as int].tmdb_id);
                    assert(place == i);
                }
                let movie_id: i32 = self.movies[i].movie_id;
                let row = MovieRow {
                    movie_id,
                    tmdb_id: details.id,
                    title: details.original_title.clone(),
                    release_date: details.release_date.clone(),
                    runtime_minutes: details.runtime,
                };
                self.movies[i] = row;
                let mut rows: Vec<i32> = Vec::new();
                rows.push(movie_id);
                assert(self@.movies =~= before.upsert_movie(details@).0.movies);
                assert(self@.persons =~= before.persons);
                assert(self@.movie_cast =~= before.movie_cast);
                assert(rows_of(rows@) =~= seq![movie_id as int]);
                Ok(rows)
            },
            None => {
                if self.next_movie_id == i32::MAX {
                    Err(StoreError::Exhausted)
                } else {
                    let movie_id: i32 = self.next_movie_id;
                    let row = MovieRow {
                        movie_id,
                        tmdb_id: details.id,
                        title: details.original_title.clone(),
                        release_date: details.release_date.clone(),
                        runtime_minutes: details.runtime,
                    };
                    self.movies.push(row);
                    self.next_movie_id = movie_id + 1;
                    let mut rows: Vec<i32> = Vec::new();
                    rows.push(movie_id);
                    assert(self@.movies =~= before.upsert_movie(details@).0.movies);
                    assert(self@.persons =~= before.persons);
                    assert(self@.movie_cast =~= before.movie_cast);
                    assert(rows_of(rows@) =~= seq![movie_id as int]);
                    Ok(rows)
                }
            },
        }
    }

    fn upsert_person(&mut self, tmdb_id: i32, name: &String) -> (r: Result<Vec<i32>, StoreError>)
        requires
            old(self)@.valid(),
        ensures
            final(self)@ == old(self)@.upsert_person(tmdb_id as int, name@).0,
            match r {
                Ok(rows) => old(self)@.upsert_person(tmdb_id as int, name@).1 == Ok::<
                    Seq<int>,
                    StoreError,
                >(rows_of(rows@)),
                Err(e) => old(self)@.upsert_person(tmdb_id as int, name@).1 == Err::<
                    Seq<int>,
                    StoreError,
                >(e),
            },
    {
        let ghost before = self@;
        match self.find_person(tmdb_id) {
            Some(i) => {
                proof {
                    let place = before.person_place(tmdb_id as int);
                    assert(person_at(before.persons, place, tmdb_id as int));
                    assert(before.persons[place].tmdb_id == before.persons[i as int].tmdb_id);
                    assert(place == i);
                }
                let person_id: i32 = self.persons[i].person_id;
                let row = PersonRow { person_id, tmdb_id, name: name.clone() };
                self.persons[i] = row;
                let mut rows: Vec<i32> = Vec::new();
                rows.push(person_id);
                assert(self@.persons =~= before.upsert_person(tmdb_id as int, name@).0.persons);
                assert(self@.movies =~= before.movies);
                assert(self@.movie_cast =~= before.movie_cast);
                assert(rows_of(rows@) =~= seq![person_id as int]);
                Ok(rows)
            },
            None => {
                if self.next_person_id == i32::MAX {
                    Err(StoreError::Exhausted)
                } else {
                    let person_id: i32 = self.next_person_id;
                    let row = PersonRow { person_id, tmdb_id, name: name.clone() };
                    self.persons.push(row);
                    self.next_person_id = person_id + 1;
                    let mut rows: Vec<i32> = Vec::new();
                    rows.push(person_id);
                    assert(self@.persons =~= before.upsert_person(tmdb_id as int, name@).0.persons);
                    assert(self@.movies =~= before.movies);
                    assert(self@.movie_cast =~= before.movie_cast);
                    assert(rows_of(rows@) =~= seq![person_id as int]);
                    Ok(rows)
                }
            },
        }
    }

    fn upsert_link(&mut self, movie_id: i32, person_id: i32, character_name: &String) -> (r: Result<
        Vec<i32>,
        StoreError,
    >)
        requires
            old(self)@.valid(),
        ensures
            final(self)@ == old(self)@.upsert_link(
                movie_id as int,
                person_id as int,
                character_name@,
            ).0,
            match r {
                Ok(rows) => old(self)@.upsert_link(
                    movie_id as int,
                    person_id as int,
                    character_name@,
                ).1 == Ok::<Seq<int>, StoreError>(rows_of(rows@)),
                Err(e) => old(self)@.upsert_link(
                    movie_id as int,
                    person_id as int,
                    character_name@,
                ).1 == Err::<Seq<int>, StoreError>(e),
            },
    {
        let ghost before = self@;
        if !self.knows_movie(movie_id) || !self.knows_person(person_id) {
            return Err(StoreError::ForeignKey);
        }
        let row = CastRow { movie_id, person_id, character_name: character_name.clone() };
        match self.find_link(movie_id, person_id) {
            Some(i) => {
                proof {
                    let place = before.link_place(movie_id as int, person_id as int);
                    assert(link_at(before.movie_cast, place, movie_id as int, person_id as int));
                    assert(before.movie_cast[place].movie_id == before.movie_cast[i as int].movie_id);
                    assert(place == i);
                }
                self.movie_cast[i] = row;
            },
            None => {
                self.movie_cast.push(row);
            },
        }
        let rows: Vec<i32> = Vec::new();
        assert(self@.movie_cast =~= before.upsert_link(
            movie_id as int,
            person_id as int,
            character_name@,
        ).0.movie_cast);
        assert(self@.movies =~= before.movies);
        assert(self@.persons =~= before.persons);
        assert(rows_of(rows@) =~= Seq::<int>::empty());
        Ok(rows)
    }

    /// Executes a statement on the tables and answers as the store does:
    /// with the first column of the rows that the statement returns, or with
    /// a refusal, after which the tables are as they were. The constraints of
    /// the schema hold afterwards as before.
    pub fn execute(&mut self, statement: &Statement) -> (r: Result<Vec<i32>, StoreError>)
        requires
            old(self)@.valid(),
        ensures
            final(self)@ == old(self)@.apply(statement@).0,
            match r {
                Ok(rows) => old(self)@.apply(statement@).1 == Ok::<Seq<int>, StoreError>(
                    rows_of(rows@),
                ),
                Err(e) => old(self)@.apply(statement@).1 == Err::<Seq<int>, StoreError>(e),
            },
            final(self)@.valid(),
    {
        proof {
            law_apply_keeps_valid(self@, statement@);
        }
        match statement {
            Statement::UpsertMovie { details } => self.upsert_movie(details),
            Statement::UpsertPerson { tmdb_id, name } => self.upsert_person(*tmdb_id, name),
            Statement::UpsertCastLink { movie_id, person_id, character_name } => self.upsert_link(
                *movie_id,
                *person_id,
                character_name,
            ),
        }
    }
}

} // verus!
