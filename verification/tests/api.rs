use udrome::api::{
    file_not_found, frontend_miss, get_album_list2, get_artists, get_cover_art, get_music_folders,
    get_playlists, get_song, not_found, ping, scrobble, search3, serve_frontend, stream, AppState,
    Endpoint, Miss, Rejection, ResponseBody, Served, INTERNAL_SERVER_ERROR, NOT_FOUND,
};
use udrome::config::{Config, Exclude, Indexer as IndexerConfig, Media, System};
use udrome::entity::song::{ActiveModel, Model};
use udrome::indexer::db::DB;
use udrome::indexer::types::{Album, Artist};
use udrome::subsonic::{AlbumID3, ArtistID3, Child, Search3, Version};

fn config(base_url: Option<&str>) -> Config {
    Config {
        system: System {
            data_path: "/data".to_string(),
            cache_mb: 16,
            bind_addr: "localhost:3000".to_string(),
            base_url: base_url.map(|s| s.to_string()),
            dev: true,
        },
        media: Media { paths: vec![] },
        indexer: IndexerConfig { enable: true, exclude: Exclude { files: vec![], dirs: vec![] } },
    }
}

fn draft(path: &str, title: &str, artist: Option<&str>, album: Option<&str>) -> ActiveModel {
    ActiveModel {
        path: path.to_string(),
        parent: None,
        title: title.to_string(),
        album: album.map(|s| s.to_string()),
        artist: artist.map(|s| s.to_string()),
        track: None,
        duration: Some(61),
        year: None,
        genre: None,
        size: Some(1000),
        content_type: Some("audio/mpeg".to_string()),
    }
}

fn library() -> DB {
    let mut db = DB::new("/data");
    db.insert_song(draft("/m/1.mp3", "Hey", Some("Ann"), Some("A1"))).unwrap();
    db.insert_song(draft("/m/2.mp3", "Ho", None, None)).unwrap();
    db.insert_cover_art(1, "image/png", 7).unwrap();
    db
}

const V1_13_0: Version = Version { major: 1, minor: 13, patch: 0 };

#[test]
fn mount_points_follow_the_base_path() {
    let state = AppState::new(&config(Some("/udrome")));
    assert_eq!(state.file_root, "/data/public");
    assert_eq!(state.base_url, "/udrome");
    assert_eq!(state.index_url, "/udrome/index.html");
    assert_eq!(state.root_route, "/udrome/");
    assert_eq!(state.rest_root, "/udrome/rest");
    assert!(state.permissive_cors);
    assert_eq!(state.bind_addr, "localhost:3000");
    let state = AppState::new(&config(None));
    assert_eq!(state.base_url, "");
    assert_eq!(state.index_url, "/index.html");
    assert_eq!(state.root_route, "/");
    assert_eq!(state.rest_root, "/rest");
}

#[test]
fn a_file_of_the_site_lies_below_its_root() {
    let state = AppState::new(&config(Some("/udrome")));
    assert_eq!(
        serve_frontend(&state, "/udrome/assets/app.js"),
        Ok(Served {
            path: "/data/public/assets/app.js".to_string(),
            content_type: mime_guess_text("js"),
        })
    );
    assert_eq!(
        serve_frontend(&state, "/udrome/index.html"),
        Ok(Served { path: "/data/public/index.html".to_string(), content_type: "text/html".to_string() })
    );
    assert_eq!(
        serve_frontend(&state, "/udrome/blob"),
        Ok(Served {
            path: "/data/public/blob".to_string(),
            content_type: "application/octet-stream".to_string(),
        })
    );
    assert_eq!(serve_frontend(&state, "/elsewhere/x"), Err(INTERNAL_SERVER_ERROR));
    assert_eq!(INTERNAL_SERVER_ERROR, 500);
}

fn mime_guess_text(ext: &str) -> String {
    mime_guess::from_ext(ext).first().unwrap().to_string()
}

#[test]
fn a_missing_file_leads_to_the_index_page() {
    let state = AppState::new(&config(Some("/udrome")));
    assert_eq!(
        frontend_miss(&state, "/data/public/songs/12"),
        Miss::Redirect("/udrome/".to_string())
    );
    assert_eq!(frontend_miss(&state, "/data/public/index.html"), Miss::Failure(500));
    assert_eq!(frontend_miss(&state, "/data/public//index.html/"), Miss::Failure(500));
    let state = AppState::new(&config(None));
    assert_eq!(frontend_miss(&state, "/data/public/x"), Miss::Redirect("/".to_string()));
}

#[test]
fn rejections() {
    assert_eq!(not_found(), Rejection { status: 404, body: "404".to_string() });
    assert_eq!(
        file_not_found("No such file"),
        Rejection { status: 404, body: "File not found: No such file".to_string() }
    );
    assert_eq!(NOT_FOUND, 404);
}

#[test]
fn endpoints_have_their_paths() {
    assert_eq!(Endpoint::Scrobble.path(), "/scrobble.view");
    assert_eq!(Endpoint::GetCoverArt.path(), "/getCoverArt.view");
    assert_eq!(Endpoint::Stream.path(), "/stream.view");
    assert_eq!(Endpoint::GetSong.path(), "/getSong.view");
    assert_eq!(Endpoint::Search3.path(), "/search3.view");
    assert_eq!(Endpoint::Ping.path(), "/ping.view");
    assert_eq!(Endpoint::GetPlaylists.path(), "/getPlaylists.view");
    assert_eq!(Endpoint::GetMusicFolders.path(), "/getMusicFolders.view");
    assert_eq!(Endpoint::GetArtists.path(), "/getArtists.view");
    assert_eq!(Endpoint::GetAlbumList2.path(), "/getAlbumList2.view");
}

#[test]
fn ping_and_scrobble_answer_empty() {
    let r = ping();
    assert_eq!(r.version, V1_13_0);
    assert_eq!(r.body, ResponseBody::Empty);
    let r = scrobble();
    assert_eq!(r.version, Version::latest());
    assert_eq!(r.version, Version { major: 1, minor: 16, patch: 1 });
    assert_eq!(r.body, ResponseBody::Empty);
    assert_eq!(Version::v1_13_0(), V1_13_0);
}

#[test]
fn a_cover_is_served_from_its_shard() {
    let db = library();
    assert_eq!(
        get_cover_art(&db, "1"),
        Ok(Served { path: "/data/data/artwork/7/1".to_string(), content_type: "image/png".to_string() })
    );
    assert_eq!(get_cover_art(&db, "2"), Err(not_found()));
    assert_eq!(get_cover_art(&db, "cover"), Err(not_found()));
}

#[test]
fn a_song_is_streamed_from_its_path() {
    let db = library();
    assert_eq!(
        stream(&db, "2"),
        Ok(Served { path: "/m/2.mp3".to_string(), content_type: "audio/mpeg".to_string() })
    );
    assert_eq!(stream(&db, "3"), Err(not_found()));
    assert_eq!(stream(&db, "1; drop"), Err(not_found()));
}

#[test]
fn a_song_goes_out_as_a_child() {
    let db = library();
    let r = get_song(&db, "1").unwrap();
    assert_eq!(r.version, V1_13_0);
    let expected = Child {
        id: "1".to_string(),
        parent: None,
        title: "Hey".to_string(),
        album: Some("A1".to_string()),
        artist: Some("Ann".to_string()),
        track: None,
        year: None,
        genre: None,
        cover_art: Some("1".to_string()),
        size: Some(1000),
        content_type: Some("audio/mpeg".to_string()),
        duration: Some(61),
        path: Some("/m/1.mp3".to_string()),
        album_id: Some("A1".to_string()),
        artist_id: Some("Ann".to_string()),
    };
    assert_eq!(r.body, ResponseBody::Song(expected));
    assert_eq!(get_song(&db, "9"), Err(not_found()));
    assert_eq!(get_song(&db, ""), Err(not_found()));
}

#[test]
fn every_column_reaches_the_child() {
    let song = Model {
        id: -3,
        path: "/p".to_string(),
        parent: Some("par".to_string()),
        title: "T".to_string(),
        album: None,
        artist: None,
        track: Some(4),
        duration: None,
        year: Some(1999),
        genre: Some("Pop".to_string()),
        cover_art: None,
        size: Some(u32::MAX),
        content_type: None,
    };
    assert_eq!(song.clone(), song);
    let child = Child::from_song(song);
    assert_eq!(child.id, "-3");
    assert_eq!(child.parent, Some("par".to_string()));
    assert_eq!(child.track, Some(4));
    assert_eq!(child.year, Some(1999));
    assert_eq!(child.genre, Some("Pop".to_string()));
    assert_eq!(child.size, Some(4294967295));
    assert_eq!(child.duration, None);
    assert_eq!(child.album_id, None);
    assert_eq!(child.artist_id, None);
}

#[test]
fn search_answers_with_three_lists() {
    let db = library();
    let query = Search3 {
        query: "h".to_string(),
        artist_count: None,
        artist_offset: None,
        album_count: None,
        album_offset: None,
        song_count: Some(1),
        song_offset: Some(1),
        music_folder_id: Some("ignored".to_string()),
    };
    let r = search3(&db, &query);
    assert_eq!(r.version, V1_13_0);
    match r.body {
        ResponseBody::SearchResult3(found) => {
            assert!(found.artist.is_empty());
            assert!(found.album.is_empty());
            assert_eq!(found.song.len(), 1);
            assert_eq!(found.song[0].title, "Ho");
            assert_eq!(found.song[0].id, "2");
            assert_eq!(found.song[0].cover_art, None);
        }
        other => panic!("{:?}", other),
    }
    let empty = DB::new("/data");
    match search3(&empty, &query).body {
        ResponseBody::SearchResult3(found) => {
            assert!(found.artist.is_empty() && found.album.is_empty() && found.song.is_empty());
        }
        other => panic!("{:?}", other),
    }
}

#[test]
fn artists_go_out_under_one_index() {
    let db = library();
    match get_artists(&db).body {
        ResponseBody::Artists(artists) => {
            assert_eq!(artists.ignored_articles, "");
            assert_eq!(artists.index.len(), 1);
            assert_eq!(artists.index[0].name, "idx");
            assert_eq!(
                artists.index[0].artist,
                vec![ArtistID3 {
                    id: "Ann".to_string(),
                    name: "Ann".to_string(),
                    cover_art: None,
                    artist_image_url: None,
                    album_count: 1,
                    starred: None,
                }]
            );
        }
        other => panic!("{:?}", other),
    }
}

#[test]
fn albums_go_out_as_a_list() {
    let db = library();
    match get_album_list2(&db).body {
        ResponseBody::AlbumList2(list) => {
            assert_eq!(
                list.album,
                vec![AlbumID3 {
                    id: "A1".to_string(),
                    name: "A1".to_string(),
                    artist: Some("Ann".to_string()),
                    artist_id: Some("Ann".to_string()),
                    cover_art: None,
                    song_count: 1,
                    duration: 1,
                    play_count: None,
                    created: None,
                    starred: None,
                    year: None,
                    genre: None,
                }]
            );
        }
        other => panic!("{:?}", other),
    }
}

#[test]
fn stubs_answer_with_fixed_records() {
    match get_playlists().body {
        ResponseBody::Playlists(lists) => {
            assert_eq!(lists.playlist.len(), 1);
            assert_eq!(lists.playlist[0].name, "EGG!!");
            assert_eq!(lists.playlist[0].id, "1");
            assert_eq!(lists.playlist[0].song_count, 1);
        }
        other => panic!("{:?}", other),
    }
    match get_music_folders().body {
        ResponseBody::MusicFolders(folders) => {
            assert_eq!(folders.music_folder.len(), 1);
            assert_eq!(folders.music_folder[0].id, 1);
            assert_eq!(folders.music_folder[0].name, Some("music".to_string()));
        }
        other => panic!("{:?}", other),
    }
}

#[test]
fn an_artist_is_its_name() {
    let artist = Artist { name: "Ann".to_string() };
    assert_eq!(artist.id(), "Ann");
    assert_eq!(artist.name(), "Ann");
    assert_eq!(artist.album_count(), 1);
    assert_eq!(artist.cover_art(), None);
    assert_eq!(artist.artist_image_url(), None);
    assert_eq!(artist.starred(), None);
    let shown = ArtistID3::from(artist);
    assert_eq!(shown.id, "Ann");
    assert_eq!(shown.name, "Ann");
    let album = AlbumID3::from(Album { title: "T".to_string(), artist: None });
    assert_eq!((album.id.as_str(), album.name.as_str()), ("T", "T"));
    assert_eq!((album.artist, album.artist_id), (None, None));
}

#[test]
fn the_artist_of_a_song_may_be_nameless() {
    let mut db = library();
    db.insert_song(draft("/m/3.mp3", "X", None, None)).unwrap();
    let songs = db.all_songs();
    assert_eq!(Artist::from_song(songs[0].clone()).name, "Ann");
    assert_eq!(Artist::from_song(songs[2].clone()).name, "");
}
