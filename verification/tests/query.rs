use udrome::entity::song::{ActiveModel, Model};
use udrome::indexer::db::DB;
use udrome::indexer::types::{Album, Artist};
use udrome::order::{insert_sorted, Keyed};
use udrome::paths::{is_media, join_each, mime_or_octet_stream};
use udrome::query::{
    holds_all, list_albums, list_artists, list_songs, matches_song, paged, windowed,
};
use udrome::text::{fold, is_whitespace, Rank};

fn song(id: i32, title: &str, artist: Option<&str>, album: Option<&str>) -> Model {
    ActiveModel {
        path: format!("/m/{}.mp3", id),
        parent: None,
        title: title.to_string(),
        album: album.map(|s| s.to_string()),
        artist: artist.map(|s| s.to_string()),
        track: None,
        duration: None,
        year: None,
        genre: None,
        size: None,
        content_type: None,
    }
    .into_model(id)
}

fn tokens(words: &[&str]) -> Vec<String> {
    words.iter().map(|w| w.to_string()).collect()
}

#[test]
fn every_word_must_be_in_the_text() {
    assert!(holds_all("Red Balloon", &tokens(&["red", "LOON"])));
    assert!(!holds_all("Red Balloon", &tokens(&["red", "shoes"])));
    assert!(holds_all("Red Balloon", &tokens(&[])));
    assert!(holds_all("", &tokens(&[])));
}

#[test]
fn a_song_matches_by_title_artist_or_album() {
    let s = song(1, "Red Balloon", Some("U2"), Some("Sky"));
    assert!(matches_song(&s, &tokens(&[])));
    assert!(matches_song(&s, &tokens(&["ball"])));
    assert!(matches_song(&s, &tokens(&["u2"])));
    assert!(matches_song(&s, &tokens(&["sky"])));
    assert!(!matches_song(&s, &tokens(&["red", "u2"])));
    let bare = song(2, "Red", None, None);
    assert!(!matches_song(&bare, &tokens(&["u2"])));
    assert!(matches_song(&bare, &tokens(&[])));
}

#[test]
fn songs_are_listed_by_title_then_id() {
    let songs = vec![
        song(1, "b", None, None),
        song(2, "a", None, None),
        song(3, "b", None, None),
        song(4, "B", None, None),
        song(5, "", None, None),
        song(6, "ab", None, None),
    ];
    let ids: Vec<i32> = list_songs(&songs, &tokens(&[])).into_iter().map(|s| s.id).collect();
    assert_eq!(ids, vec![5, 4, 2, 6, 1, 3]);
    let ids: Vec<i32> = list_songs(&songs, &tokens(&["b"])).into_iter().map(|s| s.id).collect();
    assert_eq!(ids, vec![4, 6, 1, 3]);
    assert!(list_songs(&vec![], &tokens(&[])).is_empty());
}

#[test]
fn artists_and_albums_are_listed_once() {
    let songs = vec![
        song(1, "x", Some("Zed"), Some("One")),
        song(2, "y", Some("Ann"), Some("One")),
        song(3, "z", Some("Zed"), Some("One")),
        song(4, "w", None, Some("Alone")),
        song(5, "v", Some("Mid"), None),
    ];
    let names: Vec<String> =
        list_artists(&songs, &tokens(&[])).into_iter().map(|a| a.name).collect();
    assert_eq!(names, vec!["Ann", "Mid", "Zed"]);
    let albums: Vec<(String, Option<String>)> =
        list_albums(&songs, &tokens(&[])).into_iter().map(|a| (a.title, a.artist)).collect();
    assert_eq!(
        albums,
        vec![
            ("Alone".to_string(), None),
            ("One".to_string(), Some("Ann".to_string())),
            ("One".to_string(), Some("Zed".to_string())),
        ]
    );
    let albums: Vec<String> =
        list_albums(&songs, &tokens(&["al", "one"])).into_iter().map(|a| a.title).collect();
    assert_eq!(albums, vec!["Alone"]);
}

#[test]
fn a_page_is_cut_out_of_a_listing() {
    let all = vec!["a".to_string(), "b".to_string(), "c".to_string(), "d".to_string()];
    assert_eq!(paged(all.clone(), None, None), all);
    assert_eq!(paged(all.clone(), Some(2), None), vec!["a", "b"]);
    assert_eq!(paged(all.clone(), Some(2), Some(3)), vec!["d"]);
    assert_eq!(paged(all.clone(), None, Some(1)), vec!["b", "c", "d"]);
    assert_eq!(paged(all.clone(), Some(9), Some(4)), Vec::<String>::new());
    assert_eq!(paged(all.clone(), Some(u32::MAX), Some(u32::MAX)), Vec::<String>::new());
    assert_eq!(windowed(all.clone(), None, Some(2)), all);
    assert_eq!(windowed(all.clone(), Some(1), Some(2)), vec!["c"]);
}

#[test]
fn a_listing_keeps_its_order_and_takes_a_key_once() {
    let mut list: Vec<Artist> = Vec::new();
    for name in ["m", "a", "z", "m", "b", "a"] {
        insert_sorted(&mut list, Artist { name: name.to_string() });
    }
    let names: Vec<String> = list.into_iter().map(|a| a.name).collect();
    assert_eq!(names, vec!["a", "b", "m", "z"]);
}

#[test]
fn albums_are_ranked_by_title_then_artist() {
    let album = |t: &str, a: Option<&str>| Album {
        title: t.to_string(),
        artist: a.map(|s| s.to_string()),
    };
    assert_eq!(album("a", Some("z")).rank_to(&album("b", None)), Rank::Below);
    assert_eq!(album("a", None).rank_to(&album("a", Some(""))), Rank::Below);
    assert_eq!(album("a", Some("x")).rank_to(&album("a", None)), Rank::Above);
    assert_eq!(album("a", Some("x")).rank_to(&album("a", Some("y"))), Rank::Below);
    assert_eq!(album("a", Some("x")).rank_to(&album("a", Some("x"))), Rank::Same);
    assert_eq!(album("a", None).rank_to(&album("a", None)), Rank::Same);
    assert_eq!(song(1, "t", None, None).rank_to(&song(2, "t", None, None)), Rank::Below);
    assert_eq!(song(2, "t", None, None).rank_to(&song(2, "t", None, None)), Rank::Same);
    assert_eq!(song(3, "s", None, None).rank_to(&song(2, "t", None, None)), Rank::Below);
    assert_eq!(song(1, "u", None, None).rank_to(&song(2, "t", None, None)), Rank::Above);
}

#[test]
fn the_catalog_lists_its_songs_in_pages() {
    let mut db = DB::new("/d");
    for (i, title) in ["c", "a", "b"].iter().enumerate() {
        let mut draft = ActiveModel {
            path: format!("/{}", i),
            parent: None,
            title: title.to_string(),
            album: None,
            artist: None,
            track: None,
            duration: None,
            year: None,
            genre: None,
            size: None,
            content_type: None,
        };
        draft.artist = Some("X".to_string());
        db.insert_song(draft).unwrap();
    }
    db.insert_cover_art(3, "image/png", 0).unwrap();
    let page = db.get_songs("x", Some(2), Some(1));
    let got: Vec<(String, Option<String>)> =
        page.into_iter().map(|s| (s.title, s.cover_art)).collect();
    assert_eq!(got, vec![("b".to_string(), Some("1".to_string())), ("c".to_string(), None)]);
}

#[test]
fn characters_fold_and_separate() {
    assert_eq!(fold('A'), 'a');
    assert_eq!(fold('Z'), 'z');
    assert_eq!(fold('a'), 'a');
    assert_eq!(fold('['), '[');
    assert_eq!(fold('@'), '@');
    assert_eq!(fold('Ä'), 'Ä');
    for c in ['\0', 'a', ' ', '\t', '\n', '\u{b}', '\u{c}', '\r', '\u{85}', '\u{a0}', '\u{1680}',
        '\u{2000}', '\u{200a}', '\u{200b}', '\u{2028}', '\u{2029}', '\u{202f}', '\u{205f}',
        '\u{3000}', '\u{feff}', '\u{1c}', '\u{e}', '\u{8}']
    {
        assert_eq!(is_whitespace(c), c.is_whitespace(), "{:?}", c);
    }
}

#[test]
fn paths_are_read_as_camino_reads_them() {
    assert!(is_media("/a/b.mp3"));
    assert!(is_media("b.MP3"));
    assert!(is_media("/a/b.mp3/"));
    assert!(is_media("/a/b.mp3/c.mP3"));
    assert!(!is_media("/a/.mp3"));
    assert!(!is_media("/a/b.mp3x"));
    assert!(!is_media(""));
    assert_eq!(join_each("/r", &vec![]), "/r");
    assert_eq!(join_each("/r", &tokens(&["", "a", "", "b"])), "/r/a/b");
    assert_eq!(join_each("/r", &tokens(&["a", ""])), "/r/a/");
    assert_eq!(mime_or_octet_stream("/x/a.mp3"), "audio/mpeg");
    assert_eq!(mime_or_octet_stream("/x/a.psc1"), "application/powershell");
    assert_eq!(
        mime_or_octet_stream("/x/a.xlsm"),
        "application/vnd.ms-excel.sheet.macroenabled.12"
    );
    assert_eq!(mime_or_octet_stream("/x/a"), "application/octet-stream");
}
