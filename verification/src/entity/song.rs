//! The song table.

use crate::order::{Key, Keyed};
use crate::text::{clone_opt, opt_view, rank, Rank};
use vstd::prelude::*;

verus! {

/// One song of the catalog.
#[derive(Debug, PartialEq, Eq)]
pub struct Model {
    pub id: i32,
    pub path: String,
    pub parent: Option<String>,
    pub title: String,
    pub album: Option<String>,
    pub artist: Option<String>,
    pub track: Option<u32>,
    pub duration: Option<u32>,
    pub year: Option<u32>,
    pub genre: Option<String>,
    pub cover_art: Option<String>,
    pub size: Option<u32>,
    pub content_type: Option<String>,
}

/// What a song row holds.
pub struct Row {
    pub id: i32,
    pub path: Seq<char>,
    pub parent: Option<Seq<char>>,
    pub title: Seq<char>,
    pub album: Option<Seq<char>>,
    pub artist: Option<Seq<char>>,
    pub track: Option<u32>,
    pub duration: Option<u32>,
    pub year: Option<u32>,
    pub genre: Option<Seq<char>>,
    pub cover_art: Option<Seq<char>>,
    pub size: Option<u32>,
    pub content_type: Option<Seq<char>>,
}

impl View for Model {
    type V = Row;

    open spec fn view(&self) -> Row {
        Row {
            id: self.id,
            path: self.path@,
            parent: opt_view(self.parent),
            title: self.title@,
            album: opt_view(self.album),
            artist: opt_view(self.artist),
            track: self.track,
            duration: self.duration,
            year: self.year,
            genre: opt_view(self.genre),
            cover_art: opt_view(self.cover_art),
            size: self.size,
            content_type: opt_view(self.content_type),
        }
    }
}

impl Clone for Model {
    fn clone(&self) -> (r: Self)
        ensures
            r == *self,
    {
        Model {
            id: self.id,
            path: self.path.clone(),
            parent: clone_opt(&self.parent),
            title: self.title.clone(),
            album: clone_opt(&self.album),
            artist: clone_opt(&self.artist),
            track: self.track,
            duration: self.duration,
            year: self.year,
            genre: clone_opt(&self.genre),
            cover_art: clone_opt(&self.cover_art),
            size: self.size,
            content_type: clone_opt(&self.content_type),
        }
    }
}

/// Songs are listed by title; songs of one title, by id.
impl Keyed for Model {
    open spec fn key(v: Row) -> Key {
        Key { major: v.title, minor: None, serial: v.id as int }
    }

    fn rank_to(&self, other: &Self) -> (r: Rank) {
        match rank(self.title.as_str(), other.title.as_str()) {
            Rank::Below => Rank::Below,
            Rank::Above => Rank::Above,
            Rank::Same => if self.id < other.id {
                Rank::Below
            } else if self.id == other.id {
                Rank::Same
            } else {
                Rank::Above
            },
        }
    }
}

/// A song that is not in the catalog yet: a row without its id and without
/// a cover.
#[derive(Debug, PartialEq, Eq)]
pub struct ActiveModel {
    pub path: String,
    pub parent: Option<String>,
    pub title: String,
    pub album: Option<String>,
    pub artist: Option<String>,
    pub track: Option<u32>,
    pub duration: Option<u32>,
    pub year: Option<u32>,
    pub genre: Option<String>,
    pub size: Option<u32>,
    pub content_type: Option<String>,
}

impl ActiveModel {
    /// The row that this draft becomes under `id`.
    pub open spec fn row(&self, id: i32) -> Row {
        Row {
            id,
            path: self.path@,
            parent: opt_view(self.parent),
            title: self.title@,
            album: opt_view(self.album),
            artist: opt_view(self.artist),
            track: self.track,
            duration: self.duration,
            year: self.year,
            genre: opt_view(self.genre),
            cover_art: None,
            size: self.size,
            content_type: opt_view(self.content_type),
        }
    }

    /// The row that this draft becomes under `id`.
    pub fn into_model(self, id: i32) -> (r: Model)
        ensures
            r@ == self.row(id),
    {
        Model {
            id,
            path: self.path,
            parent: self.parent,
            title: self.title,
            album: self.album,
            artist: self.artist,
            track: self.track,
            duration: self.duration,
            year: self.year,
            genre: self.genre,
            cover_art: None,
            size: self.size,
            content_type: self.content_type,
        }
    }
}

/// What a song is related to.
#[derive(Clone, Copy, Debug, PartialEq, Eq, Structural)]
pub enum Relation {
    CoverArt,
}

} // verus!
