//! The records that travel through the pipeline.

use vstd::prelude::*;

verus! {

/// One line of the identifier export: the external identifier of a movie.
#[derive(Debug, Clone, Copy, PartialEq, Eq)]
pub struct MovieIdEntry {
    pub id: u64,
}

/// The details of one movie, keyed by its external identifier.
#[derive(Debug, PartialEq, Eq)]
pub struct MovieDetails {
    pub id: i32,
    pub original_title: String,
    pub release_date: String,
    pub runtime: i32,
}

/// Mathematical model of [`MovieDetails`].
pub struct MovieDetailsView {
    pub id: int,
    pub original_title: Seq<char>,
    pub release_date: Seq<char>,
    pub runtime: int,
}

impl View for MovieDetails {
    type V = MovieDetailsView;

    open spec fn view(&self) -> MovieDetailsView {
        MovieDetailsView {
            id: self.id as int,
            original_title: self.original_title@,
            release_date: self.release_date@,
            runtime: self.runtime as int,
        }
    }
}

impl Clone for MovieDetails {
    fn clone(&self) -> (r: Self)
        ensures
            r@ == self@,
    {
        MovieDetails {
            id: self.id,
            original_title: self.original_title.clone(),
            release_date: self.release_date.clone(),
            runtime: self.runtime,
        }
    }
}

/// One person of a movie's cast, with the character played.
#[derive(Debug, PartialEq, Eq)]
pub struct CastMember {
    pub id: i32,
    pub name: String,
    pub character: String,
}

/// Mathematical model of [`CastMember`].
pub struct CastMemberView {
    pub id: int,
    pub name: Seq<char>,
    pub character: Seq<char>,
}

impl View for CastMember {
    type V = CastMemberView;

    open spec fn view(&self) -> CastMemberView {
        CastMemberView { id: self.id as int, name: self.name@, character: self.character@ }
    }
}

impl Clone for CastMember {
    fn clone(&self) -> (r: Self)
        ensures
            r@ == self@,
    {
        CastMember { id: self.id, name: self.name.clone(), character: self.character.clone() }
    }
}

/// The cast of one movie, in the order in which the credits list it.
#[derive(Debug, PartialEq, Eq)]
pub struct Cast {
    pub cast: Vec<CastMember>,
}

impl View for Cast {
    type V = Seq<CastMemberView>;

    open spec fn view(&self) -> Seq<CastMemberView> {
        Seq::new(self.cast@.len(), |i: int| self.cast@[i]@)
    }
}

impl Clone for Cast {
    fn clone(&self) -> (r: Self)
        ensures
            r@ == self@,
    {
        let mut members: Vec<CastMember> = Vec::new();
        let mut i: usize = 0;
        while i < self.cast.len()
            invariant
                i <= self.cast@.len(),
                members@.len() == i,
                forall|k: int| 0 <= k < i ==> members@[k]@ == self.cast@[k]@,
            decreases self.cast@.len() - i,
        {
            members.push(self.cast[i].clone());
            i += 1;
        }
        let r = Cast { cast: members };
        assert(r@ =~= self@);
        r
    }
}

/// What the fetching side hands to the writing side for one movie.
#[derive(Debug, PartialEq, Eq)]
pub struct Packet {
    pub movie_details: MovieDetails,
    pub cast: Cast,
}

/// Mathematical model of [`Packet`].
pub struct PacketView {
    pub movie_details: MovieDetailsView,
    pub cast: Seq<CastMemberView>,
}

impl View for Packet {
    type V = PacketView;

    open spec fn view(&self) -> PacketView {
        PacketView { movie_details: self.movie_details@, cast: self.cast@ }
    }
}

impl Clone for Packet {
    fn clone(&self) -> (r: Self)
        ensures
            r@ == self@,
    {
        Packet { movie_details: self.movie_details.clone(), cast: self.cast.clone() }
    }
}

} // verus!
