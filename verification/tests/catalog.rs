use udrome::entity::cover_art;
use udrome::entity::song::ActiveModel;
use udrome::indexer::db::{DbErr, DB};
use udrome::subsonic::Search3;

fn draft(path: &str, title: &str, artist: Option<&str>, album: Option<&str>) -> ActiveModel {
    ActiveModel {
        path: path.to_string(),
        parent: None,
        title: title.to_string(),
        album: album.map(|s| s.to_string()),
        artist: artist.map(|s| s.to_string()),
        track: None,
        duration: None,
        year: None,
        genre: None,
        size: None,
        content_type: None,
    }
}

fn search(query: &str) -> Search3 {
    Search3 {
        query: query.to_string(),
        artist_count: None,
        artist_offset: None,
        album_count: None,
        album_offset: None,
        song_count: None,
        song_offset: None,
        music_folder_id: None,
    }
}

fn titles(db: &DB, query: &Search3) -> Vec<String> {
    db.query(query).songs.into_iter().map(|s| s.title).collect()
}

fn library() -> DB {
    let mut db = DB::new("/data");
    db.insert_song(draft("/m/1.mp3", "Red Balloon", Some("U2"), None)).unwrap();
    db.insert_song(draft("/m/2.mp3", "Red Shoes", Some("Elvis"), Some("Blue"))).unwrap();
    db.insert_song(draft("/m/3.mp3", "Apple", Some("Elvis"), Some("Red Album"))).unwrap();
    db.insert_song(draft("/m/4.mp3", "Zebra", None, Some("Blue"))).unwrap();
    db.insert_song(draft("/m/5.mp3", "Apple", Some("Ann"), Some("Blue"))).unwrap();
    db
}

#[test]
fn ids_count_up_from_one() {
    let mut db = DB::new("/data");
    assert_eq!(db.insert_song(draft("/a", "A", None, None)), Ok(1));
    assert_eq!(db.insert_song(draft("/b", "B", None, None)), Ok(2));
    assert_eq!(db.insert_cover_art(2, "image/png", 0), Ok(1));
    assert_eq!(db.insert_cover_art(1, "image/png", 511), Ok(2));
    assert_eq!(db.data_path(), "/data");
}

#[test]
fn a_path_goes_in_once() {
    let mut db = DB::new("/data");
    assert_eq!(db.insert_song(draft("/a", "A", None, None)), Ok(1));
    assert_eq!(db.insert_song(draft("/a", "Other", None, None)), Err(DbErr::Duplicate));
    assert_eq!(db.all_songs().len(), 1);
    assert_eq!(db.all_songs()[0].title, "A");
    assert!(db.song_already_in_db("/a"));
    assert!(!db.song_already_in_db("/A"));
    assert!(!db.song_already_in_db("/b"));
}

#[test]
fn a_cover_needs_a_song_and_a_shard() {
    let mut db = DB::new("/data");
    db.insert_song(draft("/a", "A", None, None)).unwrap();
    assert_eq!(db.insert_cover_art(2, "image/png", 3), Err(DbErr::UnknownSong));
    assert_eq!(db.insert_cover_art(1, "image/png", 512), Err(DbErr::ShardOutOfRange));
    assert_eq!(db.insert_cover_art(1, "image/png", -1), Err(DbErr::ShardOutOfRange));
    assert_eq!(db.insert_cover_art(7, "image/png", 512), Err(DbErr::ShardOutOfRange));
    assert_eq!(db.get_cover_art("1"), None);
    assert_eq!(db.insert_cover_art(1, "image/png", 3), Ok(1));
    let cover = db.get_cover_art("1").unwrap();
    assert_eq!(
        cover,
        cover_art::Model { id: 1, shard: 3, mime_type: "image/png".to_string(), song: 1 }
    );
}

#[test]
fn a_song_is_handed_out_with_its_first_cover() {
    let mut db = DB::new("/data");
    db.insert_song(draft("/a", "A", None, None)).unwrap();
    db.insert_song(draft("/b", "B", None, None)).unwrap();
    db.insert_cover_art(2, "image/png", 3).unwrap();
    db.insert_cover_art(2, "image/jpeg", 4).unwrap();
    assert_eq!(db.get_song("1").unwrap().cover_art, None);
    assert_eq!(db.get_song("2").unwrap().cover_art, Some("1".to_string()));
    assert_eq!(db.get_song("+2").unwrap().id, 2);
    assert_eq!(db.get_song("3"), None);
    assert_eq!(db.get_song("two"), None);
    assert_eq!(db.get_song(""), None);
    assert_eq!(db.get_cover_art_for_song(2).unwrap().id, 1);
    assert_eq!(db.get_cover_art_for_song(1), None);
    assert_eq!(db.get_cover_art("2").unwrap().mime_type, "image/jpeg");
    assert_eq!(db.get_cover_art("x"), None);
}

#[test]
fn empty_library() {
    let db = DB::new("/data");
    let found = db.query(&search("anything"));
    assert!(found.artists.is_empty());
    assert!(found.albums.is_empty());
    assert!(found.songs.is_empty());
}

#[test]
fn multi_word_and_search() {
    let mut db = DB::new("/data");
    db.insert_song(draft("/1", "Red Balloon", Some("U2"), None)).unwrap();
    db.insert_song(draft("/2", "Red Shoes", Some("Elvis"), None)).unwrap();
    assert_eq!(titles(&db, &search("red shoes")), vec!["Red Shoes"]);
    assert_eq!(titles(&db, &search("shoes   RED")), vec!["Red Shoes"]);
    assert_eq!(titles(&db, &search("red")), vec!["Red Balloon", "Red Shoes"]);
    assert_eq!(titles(&db, &search("\"red\" \"shoes\"")), vec!["Red Shoes"]);
}

#[test]
fn words_must_meet_in_one_column() {
    let db = library();
    assert_eq!(titles(&db, &search("elvis")), vec!["Apple", "Red Shoes"]);
    assert_eq!(titles(&db, &search("red elvis")), Vec::<String>::new());
    assert_eq!(titles(&db, &search("red album")), vec!["Apple"]);
    assert_eq!(titles(&db, &search("blue")), vec!["Apple", "Red Shoes", "Zebra"]);
}

#[test]
fn empty_query_lists_everything_by_title() {
    let db = library();
    let all = vec!["Apple", "Apple", "Red Balloon", "Red Shoes", "Zebra"];
    assert_eq!(titles(&db, &search("")), all);
    assert_eq!(titles(&db, &search("  \" \"  ")), all);
    let ids: Vec<i32> = db.query(&search("")).songs.into_iter().map(|s| s.id).collect();
    assert_eq!(ids, vec![3, 5, 1, 2, 4]);
}

#[test]
fn more_words_find_less() {
    let db = library();
    let fewer = titles(&db, &search("red"));
    let more = titles(&db, &search("red shoes"));
    assert!(!more.is_empty());
    for title in &more {
        assert!(fewer.contains(title));
    }
    assert!(fewer.len() > more.len());
}

#[test]
fn pages_add_up_to_the_whole() {
    let db = library();
    let whole = titles(&db, &search(""));
    let mut pages: Vec<String> = Vec::new();
    for page in 0..4u32 {
        let mut q = search("");
        q.song_count = Some(2);
        q.song_offset = Some(page * 2);
        let part = titles(&db, &q);
        assert!(part.len() <= 2);
        pages.extend(part);
    }
    assert_eq!(pages, whole);
    let mut q = search("");
    q.song_offset = Some(4);
    assert_eq!(titles(&db, &q), vec!["Zebra"]);
    q.song_offset = Some(99);
    assert!(titles(&db, &q).is_empty());
    q.song_offset = None;
    q.song_count = Some(0);
    assert!(titles(&db, &q).is_empty());
}

#[test]
fn artists_are_listed_once_in_order() {
    let db = library();
    let names: Vec<String> = db.get_artists("", None, None).into_iter().map(|a| a.name).collect();
    assert_eq!(names, vec!["Ann", "Elvis", "U2"]);
    let names: Vec<String> = db.get_artists("e", None, None).into_iter().map(|a| a.name).collect();
    assert_eq!(names, vec!["Elvis"]);
    let names: Vec<String> =
        db.get_artists("", Some(1), Some(1)).into_iter().map(|a| a.name).collect();
    assert_eq!(names, vec!["Elvis"]);
    let names: Vec<String> = db.get_artists("", None, Some(2)).into_iter().map(|a| a.name).collect();
    assert_eq!(names, vec!["Ann", "Elvis", "U2"]);
}

#[test]
fn albums_are_listed_once_with_their_artist() {
    let db = library();
    let pairs: Vec<(String, Option<String>)> =
        db.get_albums("", None, None).into_iter().map(|a| (a.title, a.artist)).collect();
    assert_eq!(
        pairs,
        vec![
            ("Blue".to_string(), None),
            ("Blue".to_string(), Some("Ann".to_string())),
            ("Blue".to_string(), Some("Elvis".to_string())),
            ("Red Album".to_string(), Some("Elvis".to_string())),
        ]
    );
    let pairs: Vec<String> = db.get_albums("red", None, None).into_iter().map(|a| a.title).collect();
    assert_eq!(pairs, vec!["Red Album"]);
}

#[test]
fn search_lists_artists_and_albums_by_their_own_column() {
    let db = library();
    let found = db.query(&search("blue"));
    assert!(found.artists.is_empty());
    assert_eq!(found.albums.len(), 3);
    let found = db.query(&search("elvis"));
    assert_eq!(found.artists.len(), 1);
    assert!(found.albums.is_empty());
}

#[test]
fn search_fills_in_the_cover() {
    let mut db = library();
    db.insert_cover_art(2, "image/png", 9).unwrap();
    let found = db.query(&search("shoes"));
    assert_eq!(found.songs.len(), 1);
    assert_eq!(found.songs[0].cover_art, Some("1".to_string()));
    let found = db.query(&search("balloon"));
    assert_eq!(found.songs[0].cover_art, None);
}

#[test]
fn a_cover_lies_in_its_shard() {
    let cover = cover_art::Model { id: 17, shard: 5, mime_type: "image/png".to_string(), song: 1 };
    assert_eq!(cover.path("/data"), "/data/data/artwork/5/17");
    assert_eq!(cover.path("/data/"), "/data/data/artwork/5/17");
    assert_eq!(cover.path(""), "data/artwork/5/17");
    assert_eq!(cover.path("rel/root"), "rel/root/data/artwork/5/17");
    assert_eq!(cover_art::SHARDS, 512);
}

fn row(id: i32, path: &str) -> udrome::entity::song::Model {
    draft(path, "T", None, None).into_model(id)
}

fn cover(id: i32, song: i32, shard: i32) -> cover_art::Model {
    cover_art::Model { id, shard, mime_type: "image/png".to_string(), song }
}

#[test]
fn a_catalog_is_restored_from_its_rows() {
    let db = DB::restore(
        "/data",
        vec![row(2, "/a"), row(5, "/b")],
        vec![cover(1, 5, 0), cover(4, 2, 511), cover(9, 5, 7)],
    )
    .unwrap();
    assert_eq!(db.data_path(), "/data");
    assert_eq!(db.all_songs(), vec![row(2, "/a"), row(5, "/b")]);
    assert_eq!(db.get_song("5").unwrap().cover_art, Some("1".to_string()));
    assert_eq!(db.get_cover_art("9"), Some(cover(9, 5, 7)));
    let mut db = db;
    assert_eq!(db.insert_song(draft("/c", "C", None, None)), Ok(6));
    assert_eq!(db.insert_cover_art(6, "image/png", 1), Ok(10));
    assert!(DB::restore("/data", vec![], vec![]).is_some());
}

#[test]
fn rows_that_are_no_catalog_are_not_restored() {
    assert!(DB::restore("/d", vec![row(0, "/a")], vec![]).is_none());
    assert!(DB::restore("/d", vec![row(2, "/a"), row(2, "/b")], vec![]).is_none());
    assert!(DB::restore("/d", vec![row(3, "/a"), row(2, "/b")], vec![]).is_none());
    assert!(DB::restore("/d", vec![row(1, "/a"), row(2, "/a")], vec![]).is_none());
    assert!(DB::restore("/d", vec![row(1, "/a"), row(2, "/b"), row(3, "/a")], vec![]).is_none());
    let mut shown = row(1, "/a");
    shown.cover_art = Some("1".to_string());
    assert!(DB::restore("/d", vec![shown], vec![]).is_none());
    assert!(DB::restore("/d", vec![row(1, "/a")], vec![cover(1, 2, 0)]).is_none());
    assert!(DB::restore("/d", vec![row(1, "/a")], vec![cover(0, 1, 0)]).is_none());
    assert!(DB::restore("/d", vec![row(1, "/a")], vec![cover(1, 1, 512)]).is_none());
    assert!(DB::restore("/d", vec![row(1, "/a")], vec![cover(1, 1, -1)]).is_none());
    assert!(DB::restore("/d", vec![row(1, "/a")], vec![cover(2, 1, 0), cover(2, 1, 0)]).is_none());
    assert!(DB::restore("/d", vec![row(1, "/a")], vec![cover(2, 1, 0), cover(1, 1, 0)]).is_none());
    assert!(DB::restore("/d", vec![row(1, "/a")], vec![cover(1, 1, 0), cover(2, 1, 0)]).is_some());
}

#[test]
fn the_last_id_is_the_last() {
    let mut db =
        DB::restore("/d", vec![row(i32::MAX, "/a")], vec![cover(i32::MAX, i32::MAX, 0)]).unwrap();
    assert_eq!(db.insert_song(draft("/b", "B", None, None)), Err(DbErr::Exhausted));
    assert_eq!(db.insert_song(draft("/a", "B", None, None)), Err(DbErr::Duplicate));
    assert_eq!(db.insert_cover_art(i32::MAX, "image/png", 0), Err(DbErr::Exhausted));
    assert_eq!(db.add_all(vec![draft("/b", "B", None, None)]), Err(DbErr::Exhausted));
    assert_eq!(db.all_songs().len(), 1);
    assert_eq!(db.get_song("2147483647").unwrap().cover_art, Some("2147483647".to_string()));
}

#[test]
fn songs_are_added_all_or_none() {
    let mut db = DB::new("/d");
    db.insert_song(draft("/a", "A", None, None)).unwrap();
    assert_eq!(db.add_all(vec![]), Ok(()));
    assert_eq!(
        db.add_all(vec![draft("/b", "B", None, None), draft("/c", "C", None, None)]),
        Ok(())
    );
    let ids: Vec<(i32, String)> = db.all_songs().into_iter().map(|s| (s.id, s.path)).collect();
    assert_eq!(
        ids,
        vec![(1, "/a".to_string()), (2, "/b".to_string()), (3, "/c".to_string())]
    );
    assert_eq!(
        db.add_all(vec![draft("/d", "D", None, None), draft("/b", "B2", None, None)]),
        Err(DbErr::Duplicate)
    );
    assert_eq!(
        db.add_all(vec![draft("/e", "E", None, None), draft("/e", "E2", None, None)]),
        Err(DbErr::Duplicate)
    );
    assert_eq!(db.all_songs().len(), 3);
    assert!(!db.song_already_in_db("/d"));
    assert!(!db.song_already_in_db("/e"));
    assert_eq!(db.insert_song(draft("/d", "D", None, None)), Ok(4));
}
