use udrome::config::{Config, Exclude, Indexer as IndexerConfig, Media, System};
use udrome::indexer::db::{DbErr, DB};
use udrome::indexer::ffprobe;
use udrome::indexer::ffprobe::{Error, Value};
use udrome::indexer::pipeline::Scanned;
use udrome::indexer::{
    parallelism, plan, store, Entry, Id3Failure, Id3Tag, Indexer, IndexerResult, Picture, Reader,
    Reading, Stored, Tag, Visitor, DEFAULT_PAR, IO_PAR,
};
use udrome::load;
use udrome::walk::{accepts, Walked};
use udrome::subsonic::Search3;

fn config(enable: bool, excluded: &[&str]) -> Config {
    Config {
        system: System {
            data_path: "/data".to_string(),
            cache_mb: 16,
            bind_addr: "localhost:3000".to_string(),
            base_url: None,
            dev: false,
        },
        media: Media { paths: vec!["/lib".to_string()] },
        indexer: IndexerConfig {
            enable,
            exclude: Exclude {
                files: excluded.iter().map(|s| s.to_string()).collect(),
                dirs: vec![],
            },
        },
    }
}

fn tagged(title: Option<&str>, artist: Option<&str>, album: Option<&str>, pictures: usize) -> Id3Tag {
    Id3Tag {
        title: title.map(|s| s.to_string()),
        artist: artist.map(|s| s.to_string()),
        album: album.map(|s| s.to_string()),
        duration: None,
        pictures: (0..pictures)
            .map(|i| Picture { mime_type: format!("image/{}", i), data: vec![i as u8, 1, 2, 3] })
            .collect(),
    }
}

fn file(path: &str, id3: Result<Id3Tag, Id3Failure>) -> Scanned {
    Scanned {
        path: path.to_string(),
        is_file: true,
        id3,
        probe: Err(ffprobe::Error::Io),
        size: Some(1000),
        duration: Some(61),
    }
}

fn single() -> Vec<Scanned> {
    vec![file("/lib/a.mp3", Ok(tagged(Some("Hey"), Some("Ann"), Some("A1"), 1)))]
}

fn search(query: &str) -> Search3 {
    Search3 {
        query: query.to_string(),
        artist_count: None,
        artist_offset: None,
        album_count: None,
        album_offset: None,
        song_count: None,
        song_offset: None,
        music_folder_id: None,
    }
}

fn result(path: &str, tag: Option<Tag>) -> IndexerResult {
    IndexerResult {
        entry: Entry::new(path.to_string()).unwrap(),
        tag,
        mime_type: Some("audio/mpeg".to_string()),
        size: Some(12),
        duration: Some(3),
    }
}

#[test]
fn single_tagged_file() {
    let mut indexer = Indexer::new(&config(true, &[]), DB::new("/data"));
    let reports = indexer.run(single());
    assert_eq!(reports.len(), 1);
    let db = indexer.db();
    let artists: Vec<String> = db.get_artists("", None, None).into_iter().map(|a| a.name).collect();
    assert_eq!(artists, vec!["Ann"]);
    let albums: Vec<(String, Option<String>)> =
        db.get_albums("", None, None).into_iter().map(|a| (a.title, a.artist)).collect();
    assert_eq!(albums, vec![("A1".to_string(), Some("Ann".to_string()))]);
    let found = db.query(&search("he"));
    assert_eq!(found.songs[0].title, "Hey");
    let id = found.songs[0].id.to_string();
    let song = db.get_song(&id).unwrap();
    assert_eq!(song.path, "/lib/a.mp3");
    assert_eq!(song.size, Some(1000));
    assert_eq!(song.duration, Some(61));
    assert_eq!(song.content_type, Some("audio/mpeg".to_string()));
    let cover_id = song.cover_art.unwrap();
    let cover = db.get_cover_art(&cover_id).unwrap();
    assert_eq!(cover.mime_type, "image/0");
    assert!(0 <= cover.shard && cover.shard <= 511);
    match &reports[0] {
        Stored::SongWithCover(song_id, blob) => {
            assert_eq!(*song_id, song.id);
            assert_eq!(blob.id, cover.id);
            assert_eq!(blob.shard, cover.shard);
            assert_eq!(blob.data, vec![0, 1, 2, 3]);
            assert_eq!(blob.path, format!("/data/data/artwork/{}/{}", cover.shard, cover.id));
            assert_eq!(blob.path, cover.path("/data"));
        }
        other => panic!("{:?}", other),
    }
}

#[test]
fn duplicate_run() {
    let mut indexer = Indexer::new(&config(true, &[]), DB::new("/data"));
    assert_eq!(indexer.run(single()).len(), 1);
    let before = indexer.db().all_songs();
    assert!(indexer.run(single()).is_empty());
    assert_eq!(indexer.db().all_songs(), before);
    assert_eq!(indexer.db().all_songs().len(), 1);
    assert!(indexer.db().get_cover_art("1").is_some());
    assert!(indexer.db().get_cover_art("2").is_none());
}

#[test]
fn a_path_twice_in_one_run_is_skipped_the_second_time() {
    let mut indexer = Indexer::new(&config(true, &[]), DB::new("/data"));
    let mut tree = single();
    tree.extend(single());
    let reports = indexer.run(tree);
    assert_eq!(reports.len(), 2);
    assert_eq!(reports[1], Stored::Skipped(DbErr::Duplicate));
    assert_eq!(indexer.db().all_songs().len(), 1);
}

#[test]
fn excluded_filename() {
    let mut indexer = Indexer::new(&config(true, &["skip.mp3"]), DB::new("/data"));
    let tree = vec![
        file("/lib/skip.mp3", Ok(tagged(Some("S"), None, None, 0))),
        file("/lib/keep.mp3", Ok(tagged(Some("K"), None, None, 0))),
    ];
    let reports = indexer.run(tree);
    assert_eq!(reports, vec![Stored::Song(1)]);
    assert!(!indexer.db().song_already_in_db("/lib/skip.mp3"));
    assert!(indexer.db().song_already_in_db("/lib/keep.mp3"));
}

#[test]
fn a_title_falls_back_to_the_file_name() {
    let mut indexer = Indexer::new(&config(true, &[]), DB::new("/data"));
    let tree = vec![
        file("/lib/untitled.mp3", Ok(tagged(None, Some("Ann"), None, 0))),
        file("/lib/untagged.mp3", Err(Id3Failure::NoTag)),
        file("/lib/broken.mp3", Err(Id3Failure::Other)),
    ];
    indexer.run(tree);
    let titles: Vec<String> = indexer.db().all_songs().into_iter().map(|s| s.title).collect();
    assert_eq!(titles, vec!["untitled.mp3", "untagged.mp3", "broken.mp3"]);
    assert_eq!(indexer.db().all_songs()[0].artist, Some("Ann".to_string()));
    assert_eq!(indexer.db().all_songs()[1].artist, None);
}

#[test]
fn an_empty_title_falls_back_to_the_file_name() {
    let mut indexer = Indexer::new(&config(true, &[]), DB::new("/data"));
    let tree = vec![
        file("/lib/empty.mp3", Ok(tagged(Some(""), Some("Ann"), None, 0))),
        file("/lib/blank.mp3", Ok(tagged(Some(" "), None, None, 0))),
    ];
    indexer.run(tree);
    let titles: Vec<String> = indexer.db().all_songs().into_iter().map(|s| s.title).collect();
    assert_eq!(titles, vec!["empty.mp3", " "]);
    let res = result("/lib/x.mp3", Some(Tag::Id3(tagged(Some(""), None, None, 0))));
    assert_eq!(res.title(), "x.mp3");
    assert_eq!(res.song().title, "x.mp3");
    let probe = ffprobe::Tag {
        title: String::new(),
        artist: None,
        album: None,
        genre: None,
        track: None,
    };
    let res = result("/lib/y.ogg", Some(Tag::Ffprobe(probe)));
    assert_eq!(res.title(), "y.ogg");
    for song in indexer.db().all_songs() {
        assert!(!song.title.is_empty());
    }
}

#[test]
fn a_full_catalog_refuses_the_same_files_again() {
    let full = udrome::entity::song::ActiveModel {
        path: "/lib/last.mp3".to_string(),
        parent: None,
        title: "Last".to_string(),
        album: None,
        artist: None,
        track: None,
        duration: None,
        year: None,
        genre: None,
        size: None,
        content_type: None,
    }
    .into_model(i32::MAX);
    let db = DB::restore("/data", vec![full], vec![]).unwrap();
    let mut indexer = Indexer::new(&config(true, &[]), db);
    let before = indexer.db().all_songs();
    assert_eq!(indexer.run(single()), vec![Stored::Skipped(DbErr::Exhausted)]);
    assert_eq!(indexer.db().all_songs(), before);
    assert_eq!(indexer.run(single()), vec![Stored::Skipped(DbErr::Exhausted)]);
    assert_eq!(indexer.db().all_songs(), before);
    assert!(indexer.db().get_cover_art("1").is_none());
}

#[test]
fn only_mp3_files_are_indexed() {
    let mut indexer = Indexer::new(&config(true, &[]), DB::new("/data"));
    let mut dir = file("/lib/dir.mp3", Err(Id3Failure::NoTag));
    dir.is_file = false;
    let tree = vec![
        file("/lib/a.flac", Err(Id3Failure::NoTag)),
        file("/lib/b.mp3.txt", Err(Id3Failure::NoTag)),
        file("/lib/mp3", Err(Id3Failure::NoTag)),
        file("/lib/.mp3", Err(Id3Failure::NoTag)),
        dir,
        file("/lib/c.Mp3", Err(Id3Failure::NoTag)),
        file("/lib/d.MP3", Err(Id3Failure::NoTag)),
    ];
    indexer.run(tree);
    let paths: Vec<String> = indexer.db().all_songs().into_iter().map(|s| s.path).collect();
    assert_eq!(paths, vec!["/lib/c.Mp3", "/lib/d.MP3"]);
    assert!(accepts("/lib/x.mp3", true));
    assert!(!accepts("/lib/x.mp3", false));
    assert!(!accepts("/lib/x.mp4", true));
    assert!(!accepts("/lib/x", true));
}

#[test]
fn a_disabled_indexer_writes_nothing() {
    let mut indexer = Indexer::new(&config(false, &[]), DB::new("/data"));
    assert!(!indexer.is_enabled());
    assert!(indexer.run(single()).is_empty());
    assert!(indexer.db().all_songs().is_empty());
    let entry = Entry::new("/lib/a.mp3".to_string()).unwrap();
    assert!(!indexer.wants(&vec![], &entry));
}

#[test]
fn the_filter_drops_known_and_excluded_files() {
    let indexer = Indexer::new(&config(true, &["skip.mp3"]), DB::new("/data"));
    let known = vec!["/lib/old.mp3".to_string()];
    assert!(indexer.wants(&known, &Entry::new("/lib/new.mp3".to_string()).unwrap()));
    assert!(!indexer.wants(&known, &Entry::new("/lib/old.mp3".to_string()).unwrap()));
    assert!(!indexer.wants(&known, &Entry::new("/lib/sub/skip.mp3".to_string()).unwrap()));
    assert!(indexer.wants(&known, &Entry::new("/lib/skip.mp3/x.mp3".to_string()).unwrap()));
    assert_eq!(indexer.media_paths(), &vec!["/lib".to_string()]);
    assert!(indexer.known().is_empty());
}

#[test]
fn known_lists_the_paths_of_the_catalog() {
    let mut indexer = Indexer::new(&config(true, &[]), DB::new("/data"));
    indexer.run(vec![
        file("/lib/b.mp3", Err(Id3Failure::NoTag)),
        file("/lib/a.mp3", Err(Id3Failure::NoTag)),
    ]);
    assert_eq!(indexer.known(), vec!["/lib/b.mp3", "/lib/a.mp3"]);
}

#[test]
fn an_entry_is_a_path_with_a_file_name() {
    let entry = Entry::new("/lib/sub/a.mp3".to_string()).unwrap();
    assert_eq!(entry.path(), "/lib/sub/a.mp3");
    assert_eq!(entry.file_name(), "a.mp3");
    assert_eq!(Entry::new("/lib/sub/".to_string()).unwrap().file_name(), "sub");
    assert!(Entry::new("/".to_string()).is_none());
    assert!(Entry::new("/lib/..".to_string()).is_none());
    assert!(Entry::new(String::new()).is_none());
}

#[test]
fn the_name_of_a_file_picks_its_reader() {
    assert_eq!(plan("/lib/a.mp3"), (Some("audio/mpeg".to_string()), Reader::Id3));
    assert_eq!(plan("/lib/a.MP3"), (Some("audio/mpeg".to_string()), Reader::Id3));
    let (mime, reader) = plan("/lib/a.flac");
    assert_eq!(reader, Reader::Ffprobe);
    assert!(mime.is_some());
    assert_ne!(mime, Some("audio/mpeg".to_string()));
    assert_eq!(plan("/lib/a"), (None, Reader::Ffprobe));
    assert_eq!(plan("/lib/a.nosuchextension"), (None, Reader::Ffprobe));
}

#[test]
fn a_failed_reading_gives_no_tag() {
    assert_eq!(Reading::Id3(Err(Id3Failure::NoTag)).into_tag(), None);
    assert_eq!(Reading::Id3(Err(Id3Failure::Other)).into_tag(), None);
    assert_eq!(Reading::Ffprobe(Err(ffprobe::Error::Deser)).into_tag(), None);
    assert_eq!(Reading::Ffprobe(Err(ffprobe::Error::Io)).into_tag(), None);
    let tag = tagged(Some("T"), None, None, 0);
    assert_eq!(
        Reading::Id3(Ok(tagged(Some("T"), None, None, 0))).into_tag(),
        Some(Tag::Id3(tag))
    );
}

#[test]
fn probe_tags_fill_a_result() {
    let probe = ffprobe::Tag {
        title: "Probed".to_string(),
        artist: Some("Art".to_string()),
        album: None,
        genre: Some("Pop".to_string()),
        track: Some("2/14".to_string()),
    };
    let md = ffprobe::Metadata { format: ffprobe::Tags { tags: probe } };
    let entry = Entry::new("/lib/a.ogg".to_string()).unwrap();
    let (mime, reader) = plan(entry.path());
    assert_eq!(reader, Reader::Ffprobe);
    let res = IndexerResult::new(entry, mime, Reading::Ffprobe(Ok(md)), None, None);
    assert_eq!(res.title(), "Probed");
    assert_eq!(res.artist(), Some("Art"));
    assert_eq!(res.album(), None);
    assert_eq!(res.size(), None);
    assert_eq!(res.duration(), None);
    assert!(res.pictures().is_empty());
    let tag = res.tag.as_ref().unwrap();
    assert_eq!(tag.title(), Some("Probed"));
    assert_eq!(tag.artist(), Some("Art"));
    assert_eq!(tag.album(), None);
}

#[test]
fn store_writes_the_song_and_its_first_picture() {
    let mut db = DB::new("/data");
    let res = result("/lib/a.mp3", Some(Tag::Id3(tagged(Some("T"), None, Some("Al"), 2))));
    assert_eq!(res.pictures().len(), 2);
    let stored = store(&mut db, &res, 1000);
    match stored {
        Stored::SongWithCover(1, blob) => {
            assert_eq!(blob.id, 1);
            assert_eq!(blob.shard, 488);
            assert_eq!(blob.path, "/data/data/artwork/488/1");
            assert_eq!(blob.data, vec![0, 1, 2, 3]);
        }
        other => panic!("{:?}", other),
    }
    let cover = db.get_cover_art("1").unwrap();
    assert_eq!((cover.shard, cover.song, cover.mime_type.as_str()), (488, 1, "image/0"));
    assert!(db.get_cover_art("2").is_none());
    let song = db.get_song("1").unwrap();
    assert_eq!(song.title, "T");
    assert_eq!(song.album, Some("Al".to_string()));
    assert_eq!(song.size, Some(12));
    assert_eq!(song.duration, Some(3));
    assert_eq!(store(&mut db, &res, 7), Stored::Skipped(DbErr::Duplicate));
    let plain = result("/lib/b.mp3", None);
    assert_eq!(store(&mut db, &plain, 7), Stored::Song(2));
    assert_eq!(db.get_song("2").unwrap().title, "b.mp3");
}

#[test]
fn a_long_track_keeps_the_low_bits_of_its_seconds() {
    let mut db = DB::new("/data");
    let mut res = result("/lib/a.mp3", None);
    res.duration = Some((1u64 << 32) + 5);
    assert_eq!(res.song().duration, Some(5));
    assert_eq!(store(&mut db, &res, 0), Stored::Song(1));
    assert_eq!(db.get_song("1").unwrap().duration, Some(5));
}

#[test]
fn write_picks_a_shard_in_range() {
    let mut db = DB::new("/data");
    let mut shards = Vec::new();
    for i in 0..40 {
        let path = format!("/lib/{}.mp3", i);
        let res = result(&path, Some(Tag::Id3(tagged(None, None, None, 1))));
        match udrome::indexer::write(&mut db, &res) {
            Stored::SongWithCover(_, blob) => {
                assert!(0 <= blob.shard && blob.shard < 512);
                shards.push(blob.shard);
            }
            other => panic!("{:?}", other),
        }
    }
    shards.dedup();
    assert!(shards.len() > 1);
}

#[test]
fn the_walker_hands_on_music_files_and_counts() {
    let walk = vec![
        Walked::Found { path: "/lib".to_string(), is_file: false },
        Walked::Found { path: "/lib/a.mp3".to_string(), is_file: true },
        Walked::NonUtf8,
        Walked::Found { path: "/lib/b.txt".to_string(), is_file: true },
        Walked::Found { path: "/lib/c.MP3".to_string(), is_file: true },
        Walked::Failed,
        Walked::Found { path: "/lib/d.mp3".to_string(), is_file: true },
    ];
    let mut visitor = Visitor { queue: vec!["/old.mp3".to_string()] };
    let mut count: u32 = 10;
    load(&walk, &mut visitor, &mut count);
    assert_eq!(visitor.queue, vec!["/old.mp3", "/lib/a.mp3", "/lib/c.MP3"]);
    assert_eq!(count, 16);
    assert_eq!(visitor.clone(), visitor);
    let mut count = u32::MAX;
    load(&walk, &mut visitor, &mut count);
    assert_eq!(count, 5);
}

#[test]
fn batch_sizes() {
    assert_eq!(DEFAULT_PAR, 4);
    assert_eq!(IO_PAR, 100);
    assert_eq!(parallelism(Some(8)), 8);
    assert_eq!(parallelism(None), 4);
    assert_eq!(parallelism(Some(0)), 4);
}

#[test]
fn probe_entries_are_read_in_lower_case() {
    let text = |s: &str| Value::Text(s.to_string());
    let pairs = vec![
        ("ALBUM".to_string(), text("Al")),
        ("Artist".to_string(), Value::Null),
        ("TITLE".to_string(), text("Upper")),
        ("encoder".to_string(), Value::Other),
        ("title".to_string(), text("Lower")),
        ("track".to_string(), text("2/14")),
    ];
    let tag = ffprobe::Tag::from_pairs(&pairs).unwrap();
    assert_eq!(tag.title, "Lower");
    assert_eq!(tag.album, Some("Al".to_string()));
    assert_eq!(tag.artist, None);
    assert_eq!(tag.genre, None);
    assert_eq!(tag.track, Some("2/14".to_string()));
    assert_eq!(tag.clone(), tag);
    assert_eq!(ffprobe::Tag::from_pairs(&vec![]), Err(Error::Deser));
    assert_eq!(ffprobe::Tag::from_pairs(&vec![("title".to_string(), Value::Null)]), Err(Error::Deser));
    assert_eq!(ffprobe::Tag::from_pairs(&vec![("title".to_string(), Value::Other)]), Err(Error::Deser));
    assert_eq!(
        ffprobe::Tag::from_pairs(&vec![("title".to_string(), text("T")), ("genre".to_string(), Value::Other)]),
        Err(Error::Deser)
    );
    assert_eq!(
        ffprobe::Tag::from_pairs(&vec![("artist".to_string(), text("A"))]),
        Err(Error::Deser)
    );
}
