//! The indexer and the catalog that it fills.

use crate::config::{Config, Indexer as IndexerConfig};
use crate::entity::{cover_art, song};
use crate::indexer::db::{Catalog, DbErr, DB};
use crate::indexer::ffprobe::Tag as FFProbeTag;
use crate::indexer::titles::{lemma_stored_titled, titled};
use crate::paths::{file_name, file_name_of, guess_mime, guessed_mime, AUDIO_MPEG};
use crate::text::{clone_opt, opt_str_view, opt_view, same, views};
use crate::util::{to_pwned, unpwn};
use crate::walk::FileVisitor;
use vstd::prelude::*;

pub mod covers;
pub mod db;
pub mod ffprobe;
pub mod idempotence;
pub mod pipeline;
pub mod titles;
pub mod types;
pub mod validity;

verus! {

/// Calls `rand::random::<u32>`. Nothing is claimed of the number.
#[verifier::external_body]
pub(crate) fn random_u32() -> (r: u32) {
    rand::random::<u32>()
}

/// A picture that a file carries.
#[derive(Debug, PartialEq, Eq)]
pub struct Picture {
    pub mime_type: String,
    pub data: Vec<u8>,
}

/// The ID3 tag of a file, as far as the indexer reads it.
#[derive(Debug, PartialEq, Eq)]
pub struct Id3Tag {
    pub title: Option<String>,
    pub artist: Option<String>,
    pub album: Option<String>,
    /// The length of the track in seconds, where the tag gives one.
    pub duration: Option<u32>,
    pub pictures: Vec<Picture>,
}

/// The tags of a file, from whichever source read them.
#[derive(Debug, PartialEq, Eq)]
pub enum Tag {
    Ffprobe(FFProbeTag),
    Id3(Id3Tag),
}

impl Tag {
    /// The title that the tag carries. A report of the probe tool always has one.
    pub open spec fn spec_title(&self) -> Option<Seq<char>> {
        match self {
            Tag::Ffprobe(tag) => Some(tag.title@),
            Tag::Id3(tag) => opt_view(tag.title),
        }
    }

    /// The artist that the tag carries.
    pub open spec fn spec_artist(&self) -> Option<Seq<char>> {
        match self {
            Tag::Ffprobe(tag) => opt_view(tag.artist),
            Tag::Id3(tag) => opt_view(tag.artist),
        }
    }

    /// The album that the tag carries.
    pub open spec fn spec_album(&self) -> Option<Seq<char>> {
        match self {
            Tag::Ffprobe(tag) => opt_view(tag.album),
            Tag::Id3(tag) => opt_view(tag.album),
        }
    }

    /// The pictures of the tag. The probe tool reports none.
    pub open spec fn spec_pictures(&self) -> Seq<Picture> {
        match self {
            Tag::Ffprobe(_) => Seq::empty(),
            Tag::Id3(tag) => tag.pictures@,
        }
    }

    /// The title that the tag carries.
    pub fn title(&self) -> (r: Option<&str>)
        ensures
            opt_str_view(r) == self.spec_title(),
    {
        match self {
            Tag::Ffprobe(tag) => Some(tag.title.as_str()),
            Tag::Id3(tag) => unpwn(&tag.title),
        }
    }

    /// The artist that the tag carries.
    pub fn artist(&self) -> (r: Option<&str>)
        ensures
            opt_str_view(r) == self.spec_artist(),
    {
        match self {
            Tag::Ffprobe(tag) => unpwn(&tag.artist),
            Tag::Id3(tag) => unpwn(&tag.artist),
        }
    }

    /// The album that the tag carries.
    pub fn album(&self) -> (r: Option<&str>)
        ensures
            opt_str_view(r) == self.spec_album(),
    {
        match self {
            Tag::Ffprobe(tag) => unpwn(&tag.album),
            Tag::Id3(tag) => unpwn(&tag.album),
        }
    }
}

/// What an entry of the walk holds: a path and the name of the file that
/// it ends in.
pub struct EntryRow {
    pub path: Seq<char>,
    pub file_name: Seq<char>,
}

/// A path that names a file, with the name.
#[derive(Debug, PartialEq, Eq)]
pub struct Entry {
    path: String,
    file_name: String,
}

impl View for Entry {
    type V = EntryRow;

    closed spec fn view(&self) -> EntryRow {
        EntryRow { path: self.path@, file_name: self.file_name@ }
    }
}

/// The entry that a path gives: the path with its file name, where it has
/// one that is not empty.
pub open spec fn entry_of(path: Seq<char>) -> Option<EntryRow> {
    match file_name_of(path) {
        Some(name) => if name.len() > 0 {
            Some(EntryRow { path, file_name: name })
        } else {
            None
        },
        None => None,
    }
}

impl Entry {
    #[verifier::type_invariant]
    spec fn inv(&self) -> bool {
        entry_of(self.path@) == Some(self@)
    }

    /// The entry for `path`; none where the path names no file.
    pub fn new(path: String) -> (r: Option<Entry>)
        ensures
            match r {
                Some(entry) => entry_of(path@) == Some(entry@),
                None => entry_of(path@) is None,
            },
    {
        match file_name(path.as_str()) {
            Some(name) => {
                if name.as_str().unicode_len() > 0 {
                    Some(Entry { path, file_name: name })
                } else {
                    None
                }
            },
            None => None,
        }
    }

    /// The path.
    pub fn path(&self) -> (r: &str)
        ensures
            r@ == self@.path,
            entry_of(self@.path) == Some(self@),
    {
        proof {
            use_type_invariant(self);
        }
        self.path.as_str()
    }

    /// The name of the file that the path ends in.
    pub fn file_name(&self) -> (r: &str)
        ensures
            r@ == self@.file_name,
            r@.len() > 0,
    {
        proof {
            use_type_invariant(self);
        }
        self.file_name.as_str()
    }
}

/// Which reader the indexer sends to a file.
#[derive(Clone, Copy, Debug, PartialEq, Eq, Structural)]
pub enum Reader {
    /// The ID3 reader: the file is MPEG audio by its name.
    Id3,
    /// The probe tool: the file is of another kind, or of none that its
    /// name tells.
    Ffprobe,
}

/// The reader for a file of the media type `mime`.
pub open spec fn reader_for(mime: Option<Seq<char>>) -> Reader {
    if mime == Some(AUDIO_MPEG@) {
        Reader::Id3
    } else {
        Reader::Ffprobe
    }
}

/// Why the ID3 reader gave no tag.
#[derive(Clone, Copy, Debug, PartialEq, Eq, Structural)]
pub enum Id3Failure {
    /// The file carries no tag.
    NoTag,
    /// The file could not be read, or its tag could not be parsed.
    Other,
}

/// What a reader found in a file.
#[derive(Debug, PartialEq, Eq)]
pub enum Reading {
    Id3(Result<Id3Tag, Id3Failure>),
    Ffprobe(Result<ffprobe::Metadata, ffprobe::Error>),
}

impl Reading {
    /// The tag that a reading gives: the one that was read, and none where
    /// the reader failed, for whatever reason.
    pub open spec fn spec_tag(self) -> Option<Tag> {
        match self {
            Reading::Id3(Ok(tag)) => Some(Tag::Id3(tag)),
            Reading::Ffprobe(Ok(md)) => Some(Tag::Ffprobe(md.format.tags)),
            _ => None,
        }
    }

    /// The tag that a reading gives.
    pub fn into_tag(self) -> (r: Option<Tag>)
        ensures
            r == self.spec_tag(),
    {
        match self {
            Reading::Id3(Ok(tag)) => Some(Tag::Id3(tag)),
            Reading::Ffprobe(Ok(md)) => Some(Tag::Ffprobe(md.into_tag())),
            _ => None,
        }
    }
}

/// The media type that the name of `path` suggests, and the reader to send
/// to the file.
pub fn plan(path: &str) -> (r: (Option<String>, Reader))
    ensures
        opt_view(r.0) == guessed_mime(path@),
        r.1 == reader_for(guessed_mime(path@)),
{
    let mime = guess_mime(path);
    let reader = match &mime {
        Some(m) => if same(m.as_str(), AUDIO_MPEG) {
            Reader::Id3
        } else {
            Reader::Ffprobe
        },
        None => Reader::Ffprobe,
    };
    (mime, reader)
}

/// The pictures that a list of references points to.
pub open spec fn pictures_of(refs: Seq<&Picture>) -> Seq<Picture> {
    Seq::new(refs.len(), |i: int| *refs[i])
}

/// What the indexer knows of one file once it was read.
#[derive(Debug, PartialEq, Eq)]
pub struct IndexerResult {
    pub entry: Entry,
    pub tag: Option<Tag>,
    pub mime_type: Option<String>,
    /// The size of the file on disk in bytes, where it could be had.
    pub size: Option<u32>,
    /// The length of the track in seconds, where it could be measured.
    pub duration: Option<u64>,
}

/// What a result holds.
pub struct Extract {
    pub entry: EntryRow,
    pub tag: Option<Tag>,
    pub mime_type: Option<Seq<char>>,
    pub size: Option<u32>,
    pub duration: Option<u64>,
}

impl View for IndexerResult {
    type V = Extract;

    open spec fn view(&self) -> Extract {
        Extract {
            entry: self.entry@,
            tag: self.tag,
            mime_type: opt_view(self.mime_type),
            size: self.size,
            duration: self.duration,
        }
    }
}

impl Extract {
    /// The title of the song: the one of the tag, or the name of the file
    /// where there is no tag, or the tag has no title or an empty one.
    pub open spec fn title(self) -> Seq<char> {
        match self.tag {
            Some(tag) => match tag.spec_title() {
                Some(title) => if title.len() > 0 {
                    title
                } else {
                    self.entry.file_name
                },
                None => self.entry.file_name,
            },
            None => self.entry.file_name,
        }
    }

    /// The artist of the song, from its tag.
    pub open spec fn artist(self) -> Option<Seq<char>> {
        match self.tag {
            Some(tag) => tag.spec_artist(),
            None => None,
        }
    }

    /// The album of the song, from its tag.
    pub open spec fn album(self) -> Option<Seq<char>> {
        match self.tag {
            Some(tag) => tag.spec_album(),
            None => None,
        }
    }

    /// The pictures of the file, from its tag.
    pub open spec fn pictures(self) -> Seq<Picture> {
        match self.tag {
            Some(tag) => tag.spec_pictures(),
            None => Seq::empty(),
        }
    }

    /// The length as the catalog keeps it: the low 32 bits of the seconds.
    pub open spec fn seconds(self) -> Option<u32> {
        match self.duration {
            Some(d) => Some((d % 0x1_0000_0000) as u32),
            None => None,
        }
    }

    /// The row that the song becomes under `id`.
    pub open spec fn row(self, id: i32) -> song::Row {
        song::Row {
            id,
            path: self.entry.path,
            parent: None,
            title: self.title(),
            album: self.album(),
            artist: self.artist(),
            track: None,
            duration: self.seconds(),
            year: None,
            genre: None,
            cover_art: None,
            size: self.size,
            content_type: self.mime_type,
        }
    }
}

impl IndexerResult {
    /// What is known of the file at `entry`, from its name, from what the
    /// reader found and from what the disk says.
    pub fn new(
        entry: Entry,
        mime_type: Option<String>,
        reading: Reading,
        size: Option<u32>,
        duration: Option<u64>,
    ) -> (r: IndexerResult)
        ensures
            r@ == (Extract {
                entry: entry@,
                tag: reading.spec_tag(),
                mime_type: opt_view(mime_type),
                size,
                duration,
            }),
    {
        IndexerResult { entry, tag: reading.into_tag(), mime_type, size, duration }
    }

    /// The title of the song: the one of the tag, or the name of the file
    /// where there is no tag, or the tag has no title or an empty one. It
    /// is never empty.
    pub fn title(&self) -> (r: &str)
        ensures
            r@ == self@.title(),
            r@.len() > 0,
            self@.entry.file_name.len() > 0,
    {
        let file_name = self.entry.file_name();
        let tagged = match &self.tag {
            Some(tag) => tag.title(),
            None => None,
        };
        match tagged {
            Some(title) => if title.unicode_len() > 0 {
                title
            } else {
                file_name
            },
            None => file_name,
        }
    }

    /// The artist of the song, from its tag.
    pub fn artist(&self) -> (r: Option<&str>)
        ensures
            opt_str_view(r) == self@.artist(),
    {
        match &self.tag {
            Some(tag) => tag.artist(),
            None => None,
        }
    }

    /// The album of the song, from its tag.
    pub fn album(&self) -> (r: Option<&str>)
        ensures
            opt_str_view(r) == self@.album(),
    {
        match &self.tag {
            Some(tag) => tag.album(),
            None => None,
        }
    }

    /// The size of the file on disk in bytes, where it could be had.
    pub fn size(&self) -> (r: Option<u32>)
        ensures
            r == self.size,
    {
        self.size
    }

    /// The length of the track in seconds, where it could be measured.
    pub fn duration(&self) -> (r: Option<u64>)
        ensures
            r == self.duration,
    {
        self.duration
    }

    /// The pictures of the file, in the order of the tag.
    pub fn pictures(&self) -> (r: Vec<&Picture>)
        ensures
            pictures_of(r@) == self@.pictures(),
    {
        let mut out: Vec<&Picture> = Vec::new();
        match &self.tag {
            Some(Tag::Id3(tag)) => {
                let mut i: usize = 0;
                while i < tag.pictures.len()
                    invariant
                        i <= tag.pictures.len(),
                        self.tag == Some(Tag::Id3(*tag)),
                        pictures_of(out@) == tag.pictures@.take(i as int),
                    decreases tag.pictures.len() - i,
                {
                    let ghost prev = out@;
                    out.push(&tag.pictures[i]);
                    assert(pictures_of(out@) =~= pictures_of(prev).push(tag.pictures@[i as int]));
                    assert(pictures_of(out@) =~= tag.pictures@.take(i + 1));
                    i = i + 1;
                }
                assert(tag.pictures@.take(i as int) =~= tag.pictures@);
            },
            _ => {
                assert(pictures_of(out@) =~= Seq::<Picture>::empty());
            },
        }
        out
    }

    /// The song as it goes to the catalog. Its title is never empty.
    pub fn song(&self) -> (r: song::ActiveModel)
        ensures
            forall|id: i32| r.row(id) == self@.row(id),
            r.title@.len() > 0,
            self@.entry.file_name.len() > 0,
    {
        song::ActiveModel {
            path: String::from_str(self.entry.path()),
            parent: None,
            title: String::from_str(self.title()),
            album: to_pwned(self.album()),
            artist: to_pwned(self.artist()),
            track: None,
            duration: match self.duration {
                Some(d) => Some((d % 0x1_0000_0000) as u32),
                None => None,
            },
            year: None,
            genre: None,
            size: self.size,
            content_type: clone_opt(&self.mime_type),
        }
    }
}

/// The bytes of a cover and where they go on disk.
#[derive(Debug, PartialEq, Eq)]
pub struct CoverBlob {
    pub id: i32,
    pub shard: i32,
    pub path: String,
    pub data: Vec<u8>,
}

/// What the catalog did with a result.
#[derive(Debug, PartialEq, Eq)]
pub enum Stored {
    /// The song was refused and nothing was written.
    Skipped(DbErr),
    /// The song was written under this id, without a cover.
    Song(i32),
    /// The song was written under this id, and its first picture as its
    /// cover, whose bytes are still to go to disk.
    SongWithCover(i32, CoverBlob),
}

/// The shard that a random number picks.
pub open spec fn shard_of(dice: u32) -> i32 {
    (dice % 512) as i32
}

/// The catalog after a result went to it: unchanged where the path is in
/// it already or the song ids have run out; else with the song at the end
/// of its table and, where the file carries a picture and a cover id is
/// left, with the first picture's cover at the end of the other.
pub open spec fn stored(c: Catalog, result: Extract, dice: u32) -> Catalog {
    if c.has_path(result.entry.path) || c.next_song_id() > i32::MAX {
        c
    } else {
        let id = c.next_song_id() as i32;
        let songs = c.songs.push(result.row(id));
        if result.pictures().len() == 0 || c.next_cover_id() > i32::MAX {
            Catalog { songs, ..c }
        } else {
            Catalog {
                songs,
                covers: c.covers.push(
                    cover_art::Row {
                        id: c.next_cover_id() as i32,
                        shard: shard_of(dice),
                        mime_type: result.pictures()[0].mime_type@,
                        song: id,
                    },
                ),
                ..c
            }
        }
    }
}

/// What is reported of a result that went to the catalog `c`.
pub open spec fn reported(c: Catalog, result: Extract, dice: u32, r: Stored) -> bool {
    match r {
        Stored::Skipped(e) => {
            &&& e == DbErr::Duplicate <==> c.has_path(result.entry.path)
            &&& e == DbErr::Exhausted <==> !c.has_path(result.entry.path)
            &&& c.has_path(result.entry.path) || c.next_song_id() > i32::MAX
        },
        Stored::Song(id) => {
            &&& !c.has_path(result.entry.path)
            &&& id == c.next_song_id()
            &&& result.pictures().len() == 0 || c.next_cover_id() > i32::MAX
        },
        Stored::SongWithCover(id, blob) => {
            &&& !c.has_path(result.entry.path)
            &&& id == c.next_song_id()
            &&& result.pictures().len() > 0
            &&& blob.id == c.next_cover_id()
            &&& blob.shard == shard_of(dice)
            &&& blob.path@ == cover_art::blob_path(blob.id, blob.shard, c.data_path)
            &&& blob.data@ == result.pictures()[0].data@
        },
    }
}

fn copy_bytes(bytes: &Vec<u8>) -> (r: Vec<u8>)
    ensures
        r@ == bytes@,
{
    let mut out: Vec<u8> = Vec::new();
    let mut i: usize = 0;
    while i < bytes.len()
        invariant
            i <= bytes.len(),
            out@ == bytes@.take(i as int),
        decreases bytes.len() - i,
    {
        out.push(bytes[i]);
        assert(out@ =~= bytes@.take(i + 1));
        i = i + 1;
    }
    assert(bytes@.take(i as int) =~= bytes@);
    out
}

/// Writes a result to the catalog: the song first and then, where the file
/// carries pictures, a cover for the first of them in the shard that `dice`
/// picks. A song that the catalog refuses is skipped; a cover that it
/// refuses leaves the song without one. Where every song of the catalog
/// has a title, every song has one afterwards.
pub fn store(db: &mut DB, result: &IndexerResult, dice: u32) -> (r: Stored)
    ensures
        final(db)@ == stored(old(db)@, result@, dice),
        reported(old(db)@, result@, dice, r),
        final(db)@.wf(),
        titled(old(db)@.songs) ==> titled(final(db)@.songs),
{
    let draft = result.song();
    proof {
        if titled(db@.songs) {
            lemma_stored_titled(db@, result@, dice);
        }
    }
    let song_id = match db.insert_song(draft) {
        Ok(id) => id,
        Err(e) => {
            return Stored::Skipped(e);
        },
    };
    let ghost with_song = db@;
    assert(with_song.has_song(song_id)) by {
        assert(with_song.songs[with_song.songs.len() - 1].id == song_id);
    }
    let pictures = result.pictures();
    if pictures.len() == 0 {
        return Stored::Song(song_id);
    }
    assert(pictures_of(pictures@)[0] == *pictures@[0]);
    let picture = pictures[0];
    let shard: i32 = (dice % 512) as i32;
    match db.insert_cover_art(song_id, picture.mime_type.as_str(), shard) {
        Ok(id) => {
            let path = cover_art::Model::path_inner(id, shard, db.data_path());
            Stored::SongWithCover(
                song_id,
                CoverBlob { id, shard, path, data: copy_bytes(&picture.data) },
            )
        },
        Err(_) => Stored::Song(song_id),
    }
}

/// The catalog `after` and the report `r` are what some random number
/// makes of a result that goes to the catalog `before`.
pub open spec fn wrote(before: Catalog, result: Extract, after: Catalog, r: Stored) -> bool {
    exists|dice: u32|
        after == #[trigger] stored(before, result, dice) && reported(before, result, dice, r)
}

/// Writes a result to the catalog like `store`, in a shard picked at
/// random.
pub fn write(db: &mut DB, result: &IndexerResult) -> (r: Stored)
    ensures
        wrote(old(db)@, result@, final(db)@, r),
        final(db)@.wf(),
        titled(old(db)@.songs) ==> titled(final(db)@.songs),
{
    let dice = random_u32();
    store(db, result, dice)
}

/// The paths of the songs of a table, in its order.
pub open spec fn paths_of(songs: Seq<song::Row>) -> Seq<Seq<char>> {
    songs.map_values(|row: song::Row| row.path)
}

/// The filter keeps an entry: its path is not among the known ones, and
/// the name of its file is not among the excluded ones.
pub open spec fn wanted(known: Seq<Seq<char>>, exclude: Seq<Seq<char>>, entry: EntryRow) -> bool {
    !known.contains(entry.path) && !exclude.contains(entry.file_name)
}

fn contains_name(names: &Vec<String>, name: &str) -> (r: bool)
    ensures
        r == views(names@).contains(name@),
{
    let mut i: usize = 0;
    while i < names.len()
        invariant
            i <= names.len(),
            forall|k: int| 0 <= k < i ==> views(names@)[k] != name@,
        decreases names.len() - i,
    {
        if same(names[i].as_str(), name) {
            assert(views(names@)[i as int] == name@);
            return true;
        }
        i = i + 1;
    }
    false
}

/// The indexer: the directories of music, the catalog, and what the
/// configuration says of indexing.
pub struct Indexer {
    media_paths: Vec<String>,
    db: DB,
    config: IndexerConfig,
}

/// How many files the extractor takes at once where the machine does not
/// say how many it can run side by side.
pub const DEFAULT_PAR: usize = 4;

/// How many results the writer takes at once.
pub const IO_PAR: usize = 100;

/// How many files the extractor takes at once: as many as the machine can
/// run side by side, or the default where it does not say.
pub fn parallelism(available: Option<usize>) -> (r: usize)
    ensures
        r == match available {
            Some(n) if n > 0 => n,
            _ => DEFAULT_PAR,
        },
{
    match available {
        Some(n) => if n > 0 {
            n
        } else {
            DEFAULT_PAR
        },
        None => DEFAULT_PAR,
    }
}

impl Indexer {
    /// What the catalog holds.
    pub closed spec fn catalog(&self) -> Catalog {
        self.db@
    }

    /// The directories of music.
    pub closed spec fn roots(&self) -> Seq<Seq<char>> {
        views(self.media_paths@)
    }

    /// Whether results go to the catalog.
    pub closed spec fn enabled(&self) -> bool {
        self.config.enable
    }

    /// The names of the files that the filter drops.
    pub closed spec fn excluded(&self) -> Seq<Seq<char>> {
        views(self.config.exclude.files@)
    }

    /// An indexer for the directories and the rules of `config`, over the
    /// catalog `db`.
    pub fn new(config: &Config, db: DB) -> (r: Indexer)
        ensures
            r.catalog() == db@,
            r.roots() == views(config.media.paths@),
            r.enabled() == config.indexer.enable,
            r.excluded() == views(config.indexer.exclude.files@),
    {
        let mut media_paths: Vec<String> = Vec::new();
        let mut i: usize = 0;
        while i < config.media.paths.len()
            invariant
                i <= config.media.paths.len(),
                media_paths@ == config.media.paths@.take(i as int),
            decreases config.media.paths.len() - i,
        {
            media_paths.push(config.media.paths[i].clone());
            assert(media_paths@ =~= config.media.paths@.take(i + 1));
            i = i + 1;
        }
        assert(config.media.paths@.take(i as int) =~= config.media.paths@);
        Indexer { media_paths, db, config: config.indexer.clone() }
    }

    /// The catalog.
    pub fn db(&self) -> (r: &DB)
        ensures
            r@ == self.catalog(),
    {
        &self.db
    }

    /// The directories of music.
    pub fn media_paths(&self) -> (r: &Vec<String>)
        ensures
            views(r@) == self.roots(),
    {
        &self.media_paths
    }

    /// Whether results go to the catalog.
    pub fn is_enabled(&self) -> (r: bool)
        ensures
            r == self.enabled(),
    {
        self.config.enable
    }

    /// The paths that the catalog holds: what a run takes as known.
    pub fn known(&self) -> (r: Vec<String>)
        ensures
            views(r@) == paths_of(self.catalog().songs),
            self.catalog().wf(),
    {
        let songs = self.db.all_songs();
        let mut out: Vec<String> = Vec::new();
        let mut i: usize = 0;
        while i < songs.len()
            invariant
                i <= songs.len(),
                views(songs@) == self.catalog().songs,
                views(out@) == paths_of(self.catalog().songs).take(i as int),
            decreases songs.len() - i,
        {
            let ghost prev = out@;
            out.push(songs[i].path.clone());
            assert(views(songs@)[i as int] == songs@[i as int]@);
            assert(views(out@) =~= views(prev).push(songs@[i as int].path@));
            assert(views(out@) =~= paths_of(self.catalog().songs).take(i + 1));
            i = i + 1;
        }
        assert(paths_of(self.catalog().songs).take(i as int) =~= paths_of(self.catalog().songs));
        out
    }

    /// Whether the filter keeps `entry`, with `known` for the paths that
    /// are indexed already. With indexing switched off it keeps nothing.
    pub fn wants(&self, known: &Vec<String>, entry: &Entry) -> (r: bool)
        ensures
            r == (self.enabled() && wanted(views(known@), self.excluded(), entry@)),
    {
        self.config.enable && !contains_name(known, entry.path()) && !contains_name(
            &self.config.exclude.files,
            entry.file_name(),
        )
    }

    /// Writes a result to the catalog, in a shard picked at random.
    pub fn write(&mut self, result: &IndexerResult) -> (r: Stored)
        ensures
            wrote(old(self).catalog(), result@, final(self).catalog(), r),
            final(self).catalog().wf(),
            titled(old(self).catalog().songs) ==> titled(final(self).catalog().songs),
            final(self).roots() == old(self).roots(),
            final(self).enabled() == old(self).enabled(),
            final(self).excluded() == old(self).excluded(),
    {
        self::write(&mut self.db, result)
    }
}

/// A visitor that queues the paths for the extractor.
#[derive(Debug, PartialEq, Eq)]
pub struct Visitor {
    pub queue: Vec<String>,
}

impl FileVisitor for Visitor {
    open spec fn visited(&self) -> Seq<Seq<char>> {
        views(self.queue@)
    }

    fn visit(&mut self, entry: &str) {
        let ghost before = self.queue@;
        let owned = String::from_str(entry);
        self.queue.push(owned);
        assert(views(self.queue@) =~= views(before).push(entry@));
    }
}

impl Clone for Visitor {
    fn clone(&self) -> (r: Self)
        ensures
            r.queue@ == self.queue@,
    {
        let mut queue: Vec<String> = Vec::new();
        let mut i: usize = 0;
        while i < self.queue.len()
            invariant
                i <= self.queue.len(),
                queue@ == self.queue@.take(i as int),
            decreases self.queue.len() - i,
        {
            queue.push(self.queue[i].clone());
            assert(queue@ =~= self.queue@.take(i + 1));
            i = i + 1;
        }
        assert(self.queue@.take(i as int) =~= self.queue@);
        Visitor { queue }
    }
}

} // verus!
