//! What the server answers: the records of each endpoint, and where a
//! request for a file of the site leads.

use crate::config::Config;
use crate::entity::{cover_art, song};
use crate::indexer::db::{cover_by_id, search_words, song_by_id, with_cover, with_covers, DB};
use crate::indexer::types::{Album, AlbumRow, Artist, ArtistRow, QueryResult};
use crate::paths::{
    join, join_all, join_each, joined, mime_or_octet_stream, paths_agree, same_path, served_mime,
    AUDIO_MPEG,
};
use crate::query::{albums_of, artists_of, page, songs_of, window};
use crate::subsonic::{
    AlbumID3, AlbumList2, ArtistID3, ArtistsID3, Child, IndexID3, MusicFolder, MusicFolders,
    Playlist, Playlists, Search3, SearchResult3, Version,
};
use crate::text::{
    clone_opt, decimal, i32_to_string, opt_view, parse_i32_spec, split, split_on, strip_prefix,
    stripped, views,
};
use vstd::prelude::*;

verus! {

/// The body of an answer.
#[derive(Debug, PartialEq, Eq)]
pub enum ResponseBody {
    Empty,
    Song(Child),
    SearchResult3(SearchResult3),
    Playlists(Playlists),
    MusicFolders(MusicFolders),
    Artists(ArtistsID3),
    AlbumList2(AlbumList2),
}

/// An answer that reports success.
#[derive(Debug, PartialEq, Eq)]
pub struct Response {
    pub version: Version,
    pub body: ResponseBody,
}

/// An answer that reports a failure: a status and a short text.
#[derive(Debug, PartialEq, Eq)]
pub struct Rejection {
    pub status: u16,
    pub body: String,
}

/// The status of an answer to a request for something that is not there.
pub const NOT_FOUND: u16 = 404;

/// The status of an answer to a request that the server cannot make sense
/// of.
pub const INTERNAL_SERVER_ERROR: u16 = 500;

/// The song is what a client sees of the row: the id in decimal, the album
/// and the artist as their own ids, and every other column as it is.
pub open spec fn shows(child: Child, row: song::Row) -> bool {
    &&& child.id@ == decimal(row.id as int)
    &&& opt_view(child.path) == Some(row.path)
    &&& opt_view(child.parent) == row.parent
    &&& child.title@ == row.title
    &&& opt_view(child.album_id) == row.album
    &&& opt_view(child.album) == row.album
    &&& opt_view(child.artist) == row.artist
    &&& opt_view(child.artist_id) == row.artist
    &&& child.track == row.track
    &&& child.duration == match row.duration {
        Some(d) => Some(d as u64),
        None => None,
    }
    &&& child.year == row.year
    &&& opt_view(child.genre) == row.genre
    &&& opt_view(child.cover_art) == row.cover_art
    &&& child.size == match row.size {
        Some(s) => Some(s as u64),
        None => None,
    }
    &&& opt_view(child.content_type) == row.content_type
}

/// Each song is what a client sees of the row at its place.
pub open spec fn show_all(children: Seq<Child>, rows: Seq<song::Row>) -> bool {
    &&& children.len() == rows.len()
    &&& forall|i: int| 0 <= i < rows.len() ==> shows(#[trigger] children[i], rows[i])
}

impl Child {
    /// What a client sees of a song.
    pub fn from_song(song: song::Model) -> (r: Child)
        ensures
            shows(r, song@),
    {
        Child {
            id: i32_to_string(song.id),
            path: Some(song.path),
            parent: song.parent,
            title: song.title,
            album_id: clone_opt(&song.album),
            album: song.album,
            artist: clone_opt(&song.artist),
            artist_id: song.artist,
            track: song.track,
            duration: match song.duration {
                Some(d) => Some(d as u64),
                None => None,
            },
            year: song.year,
            genre: song.genre,
            cover_art: song.cover_art,
            size: match song.size {
                Some(s) => Some(s as u64),
                None => None,
            },
            content_type: song.content_type,
        }
    }
}

/// The record is what a client sees of the artist: the name, which is the
/// id too, one album, and nothing else.
pub open spec fn shows_artist(shown: ArtistID3, row: ArtistRow) -> bool {
    &&& shown.id@ == row.name
    &&& shown.name@ == row.name
    &&& shown.cover_art is None
    &&& shown.artist_image_url is None
    &&& shown.album_count == 1
    &&& shown.starred is None
}

/// The record is what a client sees of the album: the title, which is the
/// id too, the artist, whose name is its id, one song of one second, and
/// nothing else.
pub open spec fn shows_album(shown: AlbumID3, row: AlbumRow) -> bool {
    &&& shown.id@ == row.title
    &&& shown.name@ == row.title
    &&& opt_view(shown.artist) == row.artist
    &&& opt_view(shown.artist_id) == row.artist
    &&& shown.cover_art is None
    &&& shown.song_count == 1
    &&& shown.duration == 1
    &&& shown.play_count is None
    &&& shown.created is None
    &&& shown.starred is None
    &&& shown.year is None
    &&& shown.genre is None
}

/// Each record is what a client sees of the artist at its place.
pub open spec fn show_artists(shown: Seq<ArtistID3>, rows: Seq<ArtistRow>) -> bool {
    &&& shown.len() == rows.len()
    &&& forall|i: int| 0 <= i < rows.len() ==> shows_artist(#[trigger] shown[i], rows[i])
}

/// Each record is what a client sees of the album at its place.
pub open spec fn show_albums(shown: Seq<AlbumID3>, rows: Seq<AlbumRow>) -> bool {
    &&& shown.len() == rows.len()
    &&& forall|i: int| 0 <= i < rows.len() ==> shows_album(#[trigger] shown[i], rows[i])
}

/// What clients see of a list of artists.
pub fn artists_id3(artists: Vec<Artist>) -> (r: Vec<ArtistID3>)
    ensures
        show_artists(r@, views(artists@)),
{
    let mut out: Vec<ArtistID3> = Vec::new();
    let ghost whole = artists@;
    for artist in it: artists
        invariant
            it.seq() == whole,
            show_artists(out@, views(whole).take(it.index())),
    {
        out.push(ArtistID3::from(artist));
    }
    assert(views(whole).take(whole.len() as int) =~= views(whole));
    out
}

/// What clients see of a list of albums.
pub fn albums_id3(albums: Vec<Album>) -> (r: Vec<AlbumID3>)
    ensures
        show_albums(r@, views(albums@)),
{
    let mut out: Vec<AlbumID3> = Vec::new();
    let ghost whole = albums@;
    for album in it: albums
        invariant
            it.seq() == whole,
            show_albums(out@, views(whole).take(it.index())),
    {
        out.push(AlbumID3::from(album));
    }
    assert(views(whole).take(whole.len() as int) =~= views(whole));
    out
}

/// What clients see of a list of songs.
pub fn children(songs: Vec<song::Model>) -> (r: Vec<Child>)
    ensures
        show_all(r@, views(songs@)),
{
    let mut out: Vec<Child> = Vec::new();
    let ghost whole = songs@;
    for song in it: songs
        invariant
            it.seq() == whole,
            show_all(out@, views(whole).take(it.index())),
    {
        out.push(Child::from_song(song));
    }
    assert(views(whole).take(whole.len() as int) =~= views(whole));
    out
}

/// The endpoints of the API.
#[derive(Clone, Copy, Debug, PartialEq, Eq, Structural)]
pub enum Endpoint {
    Scrobble,
    GetCoverArt,
    Stream,
    GetSong,
    Search3,
    Ping,
    GetPlaylists,
    GetMusicFolders,
    GetArtists,
    GetAlbumList2,
}

impl Endpoint {
    /// The path of the endpoint below the root of the API.
    pub open spec fn spec_path(self) -> Seq<char> {
        match self {
            Endpoint::Scrobble => "/scrobble.view"@,
            Endpoint::GetCoverArt => "/getCoverArt.view"@,
            Endpoint::Stream => "/stream.view"@,
            Endpoint::GetSong => "/getSong.view"@,
            Endpoint::Search3 => "/search3.view"@,
            Endpoint::Ping => "/ping.view"@,
            Endpoint::GetPlaylists => "/getPlaylists.view"@,
            Endpoint::GetMusicFolders => "/getMusicFolders.view"@,
            Endpoint::GetArtists => "/getArtists.view"@,
            Endpoint::GetAlbumList2 => "/getAlbumList2.view"@,
        }
    }

    /// The path of the endpoint below the root of the API.
    pub fn path(self) -> (r: &'static str)
        ensures
            r@ == self.spec_path(),
    {
        match self {
            Endpoint::Scrobble => "/scrobble.view",
            Endpoint::GetCoverArt => "/getCoverArt.view",
            Endpoint::Stream => "/stream.view",
            Endpoint::GetSong => "/getSong.view",
            Endpoint::Search3 => "/search3.view",
            Endpoint::Ping => "/ping.view",
            Endpoint::GetPlaylists => "/getPlaylists.view",
            Endpoint::GetMusicFolders => "/getMusicFolders.view",
            Endpoint::GetArtists => "/getArtists.view",
            Endpoint::GetAlbumList2 => "/getAlbumList2.view",
        }
    }
}

/// Where the server mounts what: the root of the site on disk, the path
/// that everything lies under, the routes of the index page and of the
/// API, and what the configuration says of listening.
#[derive(Debug, PartialEq, Eq)]
pub struct AppState {
    /// The directory that holds the site.
    pub file_root: String,
    /// The path that everything lies under; empty where none is set.
    pub base_url: String,
    /// The request that the root route stands for.
    pub index_url: String,
    /// The route of the index page.
    pub root_route: String,
    /// The root of the API.
    pub rest_root: String,
    /// Whether any origin may send `GET` and `POST`.
    pub permissive_cors: bool,
    /// Host and port to listen on.
    pub bind_addr: String,
}

impl AppState {
    /// The mount points that `config` asks for.
    pub fn new(config: &Config) -> (r: AppState)
        ensures
            r.file_root@ == joined(config.system.data_path@, "public"@),
            r.base_url@ == match config.system.base_url {
                Some(base) => base@,
                None => Seq::<char>::empty(),
            },
            r.index_url@ == r.base_url@ + "/index.html"@,
            r.root_route@ == r.base_url@ + "/"@,
            r.rest_root@ == r.base_url@ + "/rest"@,
            r.permissive_cors == config.system.dev,
            r.bind_addr@ == config.system.bind_addr@,
    {
        let base_url = config.system.base_url();
        let mut index_url = base_url.clone();
        index_url.append("/index.html");
        let mut root_route = base_url.clone();
        root_route.append("/");
        let mut rest_root = base_url.clone();
        rest_root.append("/rest");
        AppState {
            file_root: join(config.system.data_path.as_str(), "public"),
            base_url,
            index_url,
            root_route,
            rest_root,
            permissive_cors: config.system.dev,
            bind_addr: config.system.bind_addr.clone(),
        }
    }
}

/// A file to send, and the media type to send it under.
#[derive(Debug, PartialEq, Eq)]
pub struct Served {
    pub path: String,
    pub content_type: String,
}

/// What to answer where a file of the site is not there.
#[derive(Debug, PartialEq, Eq)]
pub enum Miss {
    /// Send the client to this path.
    Redirect(String),
    /// Give up with this status.
    Failure(u16),
}

/// The file of the site that a request for `uri_path` asks for: what
/// follows the base path is cut at each `/`, and the pieces are adjoined
/// to the root of the site in turn.
pub open spec fn asset_path(state: AppState, rest: Seq<char>) -> Seq<char> {
    join_all(state.file_root@, split_on(rest, '/'))
}

/// Finds the file of the site that a request asks for, and its media type
/// by its name. A request whose path does not start with the base path is
/// answered with status 500.
pub fn serve_frontend(state: &AppState, uri_path: &str) -> (r: Result<Served, u16>)
    ensures
        match stripped(uri_path@, state.base_url@) {
            Some(rest) => r is Ok && r->Ok_0.path@ == asset_path(*state, rest)
                && r->Ok_0.content_type@ == served_mime(asset_path(*state, rest)),
            None => r == Err::<Served, u16>(INTERNAL_SERVER_ERROR),
        },
{
    let rest = match strip_prefix(uri_path, state.base_url.as_str()) {
        Some(rest) => rest,
        None => {
            return Err(INTERNAL_SERVER_ERROR);
        },
    };
    let components = split(rest.as_str(), '/');
    let path = join_each(state.file_root.as_str(), &components);
    let content_type = mime_or_octet_stream(path.as_str());
    Ok(Served { path, content_type })
}

/// What to answer where the file at `path` is not there: status 500 where
/// the file is the index page itself, and else a redirect to the base path
/// with a slash behind it.
pub fn frontend_miss(state: &AppState, path: &str) -> (r: Miss)
    ensures
        match r {
            Miss::Failure(status) => status == INTERNAL_SERVER_ERROR && paths_agree(
                path@,
                joined(state.file_root@, "index.html"@),
            ),
            Miss::Redirect(to) => to@ == state.base_url@ + "/"@ && !paths_agree(
                path@,
                joined(state.file_root@, "index.html"@),
            ),
        },
{
    let index_path = join(state.file_root.as_str(), "index.html");
    if same_path(path, index_path.as_str()) {
        Miss::Failure(INTERNAL_SERVER_ERROR)
    } else {
        let mut to = state.base_url.clone();
        to.append("/");
        Miss::Redirect(to)
    }
}

/// The answer to a request for something that is not in the catalog.
pub fn not_found() -> (r: Rejection)
    ensures
        r.status == NOT_FOUND,
        r.body@ == "404"@,
{
    Rejection { status: NOT_FOUND, body: String::from_str("404") }
}

/// The answer to a request for a file that could not be opened, with the
/// reason.
pub fn file_not_found(reason: &str) -> (r: Rejection)
    ensures
        r.status == NOT_FOUND,
        r.body@ == "File not found: "@ + reason@,
{
    let mut body = String::from_str("File not found: ");
    body.append(reason);
    Rejection { status: NOT_FOUND, body }
}

/// Answers a scrobble: nothing is recorded.
pub fn scrobble() -> (r: Response)
    ensures
        r.version == (Version { major: 1, minor: 16, patch: 1 }),
        r.body is Empty,
{
    Response { version: Version::latest(), body: ResponseBody::Empty }
}

/// Answers a ping.
pub fn ping() -> (r: Response)
    ensures
        r.version == (Version { major: 1, minor: 13, patch: 0 }),
        r.body is Empty,
{
    Response { version: Version::v1_13_0(), body: ResponseBody::Empty }
}

/// The cover that a request names, as a file to send: the bytes at the
/// cover's place below the data directory, under the cover's media type.
pub fn get_cover_art(db: &DB, id: &str) -> (r: Result<Served, Rejection>)
    ensures
        match parse_i32_spec(id@) {
            Some(n) => match cover_by_id(db@.covers, n) {
                Some(row) => r is Ok && r->Ok_0.path@ == cover_art::blob_path(
                    row.id,
                    row.shard,
                    db@.data_path,
                ) && r->Ok_0.content_type@ == row.mime_type,
                None => r is Err && r->Err_0.status == NOT_FOUND && r->Err_0.body@ == "404"@,
            },
            None => r is Err && r->Err_0.status == NOT_FOUND && r->Err_0.body@ == "404"@,
        },
{
    match db.get_cover_art(id) {
        Some(cover) => Ok(
            Served { path: cover.path(db.data_path()), content_type: cover.mime_type },
        ),
        None => Err(not_found()),
    }
}

/// The song that a request names, as a file to send: the file at the
/// song's path, as MPEG audio.
pub fn stream(db: &DB, id: &str) -> (r: Result<Served, Rejection>)
    ensures
        match parse_i32_spec(id@) {
            Some(n) => match song_by_id(db@.songs, n) {
                Some(row) => r is Ok && r->Ok_0.path@ == row.path && r->Ok_0.content_type@
                    == AUDIO_MPEG@,
                None => r is Err && r->Err_0.status == NOT_FOUND && r->Err_0.body@ == "404"@,
            },
            None => r is Err && r->Err_0.status == NOT_FOUND && r->Err_0.body@ == "404"@,
        },
{
    match db.get_song(id) {
        Some(song) => Ok(Served { path: song.path, content_type: String::from_str(AUDIO_MPEG) }),
        None => Err(not_found()),
    }
}

/// The song that a request names, with its cover.
pub fn get_song(db: &DB, id: &str) -> (r: Result<Response, Rejection>)
    ensures
        match parse_i32_spec(id@) {
            Some(n) => match song_by_id(db@.songs, n) {
                Some(row) => r is Ok && r->Ok_0.version == (Version {
                    major: 1,
                    minor: 13,
                    patch: 0,
                }) && r->Ok_0.body is Song && shows(
                    r->Ok_0.body->Song_0,
                    with_cover(row, db@.covers),
                ),
                None => r is Err && r->Err_0.status == NOT_FOUND && r->Err_0.body@ == "404"@,
            },
            None => r is Err && r->Err_0.status == NOT_FOUND && r->Err_0.body@ == "404"@,
        },
{
    match db.get_song(id) {
        Some(song) => Ok(
            Response {
                version: Version::v1_13_0(),
                body: ResponseBody::Song(Child::from_song(song)),
            },
        ),
        None => Err(not_found()),
    }
}

/// Answers a search with the three listings of the catalog, each as
/// clients see it.
pub fn search3(db: &DB, query: &Search3) -> (r: Response)
    ensures
        r.version == (Version { major: 1, minor: 13, patch: 0 }),
        r.body is SearchResult3,
        ({
            let found = r.body->SearchResult3_0;
            let words = search_words(query.query@);
            &&& show_artists(
                found.artist@,
                window(artists_of(db@.songs, words), query.artist_count, query.artist_offset),
            )
            &&& show_albums(
                found.album@,
                window(albums_of(db@.songs, words), query.album_count, query.album_offset),
            )
            &&& show_all(
                found.song@,
                with_covers(
                    page(songs_of(db@.songs, words), query.song_count, query.song_offset),
                    db@.covers,
                ),
            )
        }),
{
    let QueryResult { artists, albums, songs } = db.query(query);
    let artist = artists_id3(artists);
    let album = albums_id3(albums);
    let song = children(songs);
    Response {
        version: Version::v1_13_0(),
        body: ResponseBody::SearchResult3(SearchResult3 { artist, album, song }),
    }
}

/// The playlists: one, made up.
pub fn get_playlists() -> (r: Response)
    ensures
        r.version == (Version { major: 1, minor: 13, patch: 0 }),
        r.body is Playlists,
        r.body->Playlists_0.playlist@.len() == 1,
        r.body->Playlists_0.playlist@[0].name@ == "EGG!!"@,
        r.body->Playlists_0.playlist@[0].id@ == "1"@,
        r.body->Playlists_0.playlist@[0].song_count == 1,
{
    let playlist = Playlist {
        id: String::from_str("1"),
        name: String::from_str("EGG!!"),
        song_count: 1,
    };
    let mut list: Vec<Playlist> = Vec::new();
    list.push(playlist);
    Response {
        version: Version::v1_13_0(),
        body: ResponseBody::Playlists(Playlists { playlist: list }),
    }
}

/// The music folders: one, with the id 1 and the name `music`.
pub fn get_music_folders() -> (r: Response)
    ensures
        r.version == (Version { major: 1, minor: 13, patch: 0 }),
        r.body is MusicFolders,
        r.body->MusicFolders_0.music_folder@.len() == 1,
        r.body->MusicFolders_0.music_folder@[0].id == 1,
        opt_view(r.body->MusicFolders_0.music_folder@[0].name) == Some("music"@),
{
    let folder = MusicFolder { id: 1, name: Some(String::from_str("music")) };
    let mut list: Vec<MusicFolder> = Vec::new();
    list.push(folder);
    Response {
        version: Version::v1_13_0(),
        body: ResponseBody::MusicFolders(MusicFolders { music_folder: list }),
    }
}

/// Every artist of the catalog, under a single index.
pub fn get_artists(db: &DB) -> (r: Response)
    ensures
        r.version == (Version { major: 1, minor: 13, patch: 0 }),
        r.body is Artists,
        r.body->Artists_0.ignored_articles@ == Seq::<char>::empty(),
        r.body->Artists_0.index@.len() == 1,
        r.body->Artists_0.index@[0].name@ == "idx"@,
        show_artists(r.body->Artists_0.index@[0].artist@, artists_of(db@.songs, Seq::empty())),
{
    let listed = db.get_artists("", None, None);
    proof {
        reveal_strlit("");
        assert(crate::text::words_of(""@) =~= Seq::<Seq<char>>::empty());
    }
    let artist = artists_id3(listed);
    let mut index: Vec<IndexID3> = Vec::new();
    index.push(IndexID3 { name: String::from_str("idx"), artist });
    Response {
        version: Version::v1_13_0(),
        body: ResponseBody::Artists(ArtistsID3 { index, ignored_articles: String::new() }),
    }
}

/// Every album of the catalog.
pub fn get_album_list2(db: &DB) -> (r: Response)
    ensures
        r.version == (Version { major: 1, minor: 13, patch: 0 }),
        r.body is AlbumList2,
        show_albums(r.body->AlbumList2_0.album@, albums_of(db@.songs, Seq::empty())),
{
    let listed = db.get_albums("", None, None);
    proof {
        reveal_strlit("");
        assert(crate::text::words_of(""@) =~= Seq::<Seq<char>>::empty());
    }
    let album = albums_id3(listed);
    Response {
        version: Version::v1_13_0(),
        body: ResponseBody::AlbumList2(AlbumList2 { album }),
    }
}

} // verus!
