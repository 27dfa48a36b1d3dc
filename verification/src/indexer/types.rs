//! What a search hands back: artists, albums and songs.

use crate::entity::song;
use crate::order::{Key, Keyed};
use crate::subsonic::{AlbumID3, ArtistID3, DateTime};
use crate::text::{clone_opt, opt_view, rank, Rank};
use vstd::prelude::*;
use vstd::std_specs::convert::FromSpecImpl;

verus! {

/// The three lists that answer a search.
#[derive(Debug, PartialEq, Eq)]
pub struct QueryResult {
    pub artists: Vec<Artist>,
    pub albums: Vec<Album>,
    pub songs: Vec<song::Model>,
}

/// An artist: a name that some song carries.
#[derive(Debug, PartialEq, Eq)]
pub struct Artist {
    pub name: String,
}

/// What an artist holds.
pub struct ArtistRow {
    pub name: Seq<char>,
}

impl View for Artist {
    type V = ArtistRow;

    open spec fn view(&self) -> ArtistRow {
        ArtistRow { name: self.name@ }
    }
}

impl Keyed for Artist {
    open spec fn key(v: ArtistRow) -> Key {
        Key { major: v.name, minor: None, serial: 0 }
    }

    fn rank_to(&self, other: &Self) -> (r: Rank) {
        rank(self.name.as_str(), other.name.as_str())
    }
}

impl Artist {
    /// The id of an artist is its name.
    pub fn id(&self) -> (r: String)
        ensures
            r == self.name,
    {
        self.name.clone()
    }

    /// Albums are not counted: every artist reports one.
    pub fn album_count(&self) -> (r: u32)
        ensures
            r == 1,
    {
        1
    }

    /// Artists have no cover.
    pub fn cover_art(&self) -> (r: Option<String>)
        ensures
            r is None,
    {
        None
    }

    /// Artists have no image.
    pub fn artist_image_url(&self) -> (r: Option<String>)
        ensures
            r is None,
    {
        None
    }

    /// Artists are never starred.
    pub fn starred(&self) -> (r: Option<DateTime>)
        ensures
            r is None,
    {
        None
    }

    /// The name of the artist.
    pub fn name(&self) -> (r: String)
        ensures
            r == self.name,
    {
        self.name.clone()
    }
}

impl From<Artist> for ArtistID3 {
    fn from(artist: Artist) -> (r: ArtistID3) {
        ArtistID3 {
            id: artist.id(),
            name: artist.name(),
            cover_art: artist.cover_art(),
            artist_image_url: artist.artist_image_url(),
            album_count: artist.album_count(),
            starred: artist.starred(),
        }
    }
}

impl FromSpecImpl<Artist> for ArtistID3 {
    open spec fn obeys_from_spec() -> bool {
        true
    }

    open spec fn from_spec(artist: Artist) -> ArtistID3 {
        ArtistID3 {
            id: artist.name,
            name: artist.name,
            cover_art: None,
            artist_image_url: None,
            album_count: 1,
            starred: None,
        }
    }
}

impl Artist {
    /// The artist of a song; the empty name where the song names none.
    pub fn from_song(song: song::Model) -> (r: Artist)
        ensures
            r@.name == match song@.artist {
                Some(name) => name,
                None => Seq::empty(),
            },
    {
        match song.artist {
            Some(name) => Artist { name },
            None => Artist { name: String::new() },
        }
    }
}

/// An album: a title that some song carries, with that song's artist.
#[derive(Debug, PartialEq, Eq)]
pub struct Album {
    pub title: String,
    pub artist: Option<String>,
}

/// What an album holds.
pub struct AlbumRow {
    pub title: Seq<char>,
    pub artist: Option<Seq<char>>,
}

impl View for Album {
    type V = AlbumRow;

    open spec fn view(&self) -> AlbumRow {
        AlbumRow { title: self.title@, artist: opt_view(self.artist) }
    }
}

impl Keyed for Album {
    open spec fn key(v: AlbumRow) -> Key {
        Key { major: v.title, minor: v.artist, serial: 0 }
    }

    fn rank_to(&self, other: &Self) -> (r: Rank) {
        match rank(self.title.as_str(), other.title.as_str()) {
            Rank::Below => Rank::Below,
            Rank::Above => Rank::Above,
            Rank::Same => match (&self.artist, &other.artist) {
                (None, None) => Rank::Same,
                (None, Some(_)) => Rank::Below,
                (Some(_), None) => Rank::Above,
                (Some(a), Some(b)) => rank(a.as_str(), b.as_str()),
            },
        }
    }
}

impl From<Album> for AlbumID3 {
    fn from(album: Album) -> (r: AlbumID3) {
        AlbumID3 {
            id: album.title.clone(),
            name: album.title,
            artist: clone_opt(&album.artist),
            artist_id: album.artist,
            cover_art: None,
            song_count: 1,
            duration: 1,
            play_count: None,
            created: None,
            starred: None,
            year: None,
            genre: None,
        }
    }
}

impl FromSpecImpl<Album> for AlbumID3 {
    open spec fn obeys_from_spec() -> bool {
        true
    }

    /// An album goes out under its title, which is its id too, with its
    /// artist, whose name is its id; songs and seconds are not counted.
    open spec fn from_spec(album: Album) -> AlbumID3 {
        AlbumID3 {
            id: album.title,
            name: album.title,
            artist: album.artist,
            artist_id: album.artist,
            cover_art: None,
            song_count: 1,
            duration: 1,
            play_count: None,
            created: None,
            starred: None,
            year: None,
            genre: None,
        }
    }
}

} // verus!
