//! The records that travel to a Subsonic client, as plain values.

use vstd::prelude::*;

verus! {

/// A point in time, in seconds since the Unix epoch.
#[derive(Clone, Copy, Debug, PartialEq, Eq, Structural)]
pub struct DateTime {
    pub unix_seconds: i64,
}

/// A version of the Subsonic protocol.
#[derive(Clone, Copy, Debug, PartialEq, Eq, Structural)]
pub struct Version {
    pub major: u8,
    pub minor: u8,
    pub patch: u8,
}

impl Version {
    /// Version 1.13.0, which the answers carry.
    pub fn v1_13_0() -> (r: Version)
        ensures
            r == (Version { major: 1, minor: 13, patch: 0 }),
    {
        Version { major: 1, minor: 13, patch: 0 }
    }

    /// Version 1.16.1, the latest of the protocol.
    pub fn latest() -> (r: Version)
        ensures
            r == (Version { major: 1, minor: 16, patch: 1 }),
    {
        Version { major: 1, minor: 16, patch: 1 }
    }
}

/// An artist, as a client sees it.
#[derive(Debug, PartialEq, Eq)]
pub struct ArtistID3 {
    pub id: String,
    pub name: String,
    pub cover_art: Option<String>,
    pub artist_image_url: Option<String>,
    pub album_count: u32,
    pub starred: Option<DateTime>,
}

/// An album, as a client sees it.
#[derive(Debug, PartialEq, Eq)]
pub struct AlbumID3 {
    pub id: String,
    pub name: String,
    pub artist: Option<String>,
    pub artist_id: Option<String>,
    pub cover_art: Option<String>,
    pub song_count: u32,
    pub duration: u32,
    pub play_count: Option<u64>,
    pub created: Option<DateTime>,
    pub starred: Option<DateTime>,
    pub year: Option<u32>,
    pub genre: Option<String>,
}

/// A song, as a client sees it.
#[derive(Debug, PartialEq, Eq)]
pub struct Child {
    pub id: String,
    pub parent: Option<String>,
    pub title: String,
    pub album: Option<String>,
    pub artist: Option<String>,
    pub track: Option<u32>,
    pub year: Option<u32>,
    pub genre: Option<String>,
    pub cover_art: Option<String>,
    pub size: Option<u64>,
    pub content_type: Option<String>,
    pub duration: Option<u64>,
    pub path: Option<String>,
    pub album_id: Option<String>,
    pub artist_id: Option<String>,
}

/// A search request.
#[derive(Debug, PartialEq, Eq)]
pub struct Search3 {
    pub query: String,
    pub artist_count: Option<u32>,
    pub artist_offset: Option<u32>,
    pub album_count: Option<u32>,
    pub album_offset: Option<u32>,
    pub song_count: Option<u32>,
    pub song_offset: Option<u32>,
    pub music_folder_id: Option<String>,
}

/// The answer to a search.
#[derive(Debug, PartialEq, Eq)]
pub struct SearchResult3 {
    pub artist: Vec<ArtistID3>,
    pub album: Vec<AlbumID3>,
    pub song: Vec<Child>,
}

/// A music folder.
#[derive(Debug, PartialEq, Eq)]
pub struct MusicFolder {
    pub id: u32,
    pub name: Option<String>,
}

/// The music folders of the server.
#[derive(Debug, PartialEq, Eq)]
pub struct MusicFolders {
    pub music_folder: Vec<MusicFolder>,
}

/// A playlist, as far as this server fills one in.
#[derive(Debug, PartialEq, Eq)]
pub struct Playlist {
    pub id: String,
    pub name: String,
    pub song_count: u32,
}

/// The playlists of the server.
#[derive(Debug, PartialEq, Eq)]
pub struct Playlists {
    pub playlist: Vec<Playlist>,
}

/// The artists under one index letter.
#[derive(Debug, PartialEq, Eq)]
pub struct IndexID3 {
    pub name: String,
    pub artist: Vec<ArtistID3>,
}

/// All artists, by index.
#[derive(Debug, PartialEq, Eq)]
pub struct ArtistsID3 {
    pub index: Vec<IndexID3>,
    pub ignored_articles: String,
}

/// A list of albums.
#[derive(Debug, PartialEq, Eq)]
pub struct AlbumList2 {
    pub album: Vec<AlbumID3>,
}

} // verus!
