//! The catalog: the songs and their covers.

use crate::entity::{cover_art, song};
use crate::indexer::types::{Album, Artist, QueryResult};
use crate::query::{
    albums_of, artists_of, list_albums, list_artists, list_songs, page, paged, songs_of, window,
    windowed,
};
use crate::subsonic::Search3;
use crate::text::{
    decimal, i32_to_string, parse_i32, parse_i32_spec, same, strip_quotes, unquoted, views, words,
    words_of,
};
use vstd::prelude::*;

verus! {

/// Why the catalog refused a row.
#[derive(Clone, Copy, Debug, PartialEq, Eq, Structural)]
pub enum DbErr {
    /// A song with that path is in the catalog already.
    Duplicate,
    /// The cover names a song that is not in the catalog.
    UnknownSong,
    /// The shard lies outside `0..SHARDS`.
    ShardOutOfRange,
    /// The table has handed out its last id.
    Exhausted,
}

/// What a catalog holds: where its files lie, the song rows in the order of
/// their ids, and the cover rows in the order of theirs.
pub struct Catalog {
    pub data_path: Seq<char>,
    pub songs: Seq<song::Row>,
    pub covers: Seq<cover_art::Row>,
}

/// The first of `songs` with the id `id`.
pub open spec fn song_by_id(songs: Seq<song::Row>, id: i32) -> Option<song::Row>
    decreases songs.len(),
{
    if songs.len() == 0 {
        None
    } else if songs[0].id == id {
        Some(songs[0])
    } else {
        song_by_id(songs.drop_first(), id)
    }
}

/// The first of `covers` with the id `id`.
pub open spec fn cover_by_id(covers: Seq<cover_art::Row>, id: i32) -> Option<cover_art::Row>
    decreases covers.len(),
{
    if covers.len() == 0 {
        None
    } else if covers[0].id == id {
        Some(covers[0])
    } else {
        cover_by_id(covers.drop_first(), id)
    }
}

/// The first of `covers` that belongs to the song `song`.
pub open spec fn cover_of_song(covers: Seq<cover_art::Row>, song: i32) -> Option<cover_art::Row>
    decreases covers.len(),
{
    if covers.len() == 0 {
        None
    } else if covers[0].song == song {
        Some(covers[0])
    } else {
        cover_of_song(covers.drop_first(), song)
    }
}

/// The row as it is handed out: with the id of its first cover, in decimal,
/// as its cover, and with none where no cover belongs to it.
pub open spec fn with_cover(row: song::Row, covers: Seq<cover_art::Row>) -> song::Row {
    song::Row {
        cover_art: match cover_of_song(covers, row.id) {
            Some(cover) => Some(decimal(cover.id as int)),
            None => None,
        },
        ..row
    }
}

/// The rows as they are handed out, each with its cover.
pub open spec fn with_covers(rows: Seq<song::Row>, covers: Seq<cover_art::Row>) -> Seq<
    song::Row,
> {
    rows.map_values(|row: song::Row| with_cover(row, covers))
}

/// The words that a search for `raw` looks for: `raw` without its double
/// quotes, split at white space.
pub open spec fn search_words(raw: Seq<char>) -> Seq<Seq<char>> {
    words_of(unquoted(raw))
}

/// What holds of every song table: ids are positive and grow along the
/// table, no two songs share a path, and no row stores a cover.
pub open spec fn songs_ok(songs: Seq<song::Row>) -> bool {
    &&& forall|i: int| 0 <= i < songs.len() ==> (#[trigger] songs[i]).id >= 1
    &&& forall|i: int| 0 <= i < songs.len() ==> (#[trigger] songs[i]).cover_art is None
    &&& forall|i: int, j: int|
        0 <= i < j < songs.len() ==> (#[trigger] songs[i]).id < (#[trigger] songs[j]).id
    &&& forall|i: int, j: int|
        0 <= i < j < songs.len() ==> (#[trigger] songs[i]).path != (#[trigger] songs[j]).path
}

/// Some row of `songs` has the id `id`.
pub open spec fn holds_song(songs: Seq<song::Row>, id: i32) -> bool {
    exists|i: int| 0 <= i < songs.len() && (#[trigger] songs[i]).id == id
}

/// What holds of every cover table beside the song table `songs`: ids are
/// positive and grow along the table, and every cover lies in a shard and
/// belongs to a song.
pub open spec fn covers_ok(covers: Seq<cover_art::Row>, songs: Seq<song::Row>) -> bool {
    &&& forall|i: int| 0 <= i < covers.len() ==> (#[trigger] covers[i]).id >= 1
    &&& forall|i: int, j: int|
        0 <= i < j < covers.len() ==> (#[trigger] covers[i]).id < (#[trigger] covers[j]).id
    &&& forall|i: int|
        0 <= i < covers.len() ==> 0 <= (#[trigger] covers[i]).shard < cover_art::SHARDS
    &&& forall|i: int| 0 <= i < covers.len() ==> holds_song(songs, (#[trigger] covers[i]).song)
}

impl Catalog {
    /// Some song lies at `path`.
    pub open spec fn has_path(self, path: Seq<char>) -> bool {
        exists|i: int| 0 <= i < self.songs.len() && (#[trigger] self.songs[i]).path == path
    }

    /// Some song has the id `id`.
    pub open spec fn has_song(self, id: i32) -> bool {
        holds_song(self.songs, id)
    }

    /// The id that the next song gets: one more than the last, from 1.
    pub open spec fn next_song_id(self) -> int {
        if self.songs.len() == 0 {
            1
        } else {
            self.songs.last().id + 1
        }
    }

    /// The id that the next cover gets: one more than the last, from 1.
    pub open spec fn next_cover_id(self) -> int {
        if self.covers.len() == 0 {
            1
        } else {
            self.covers.last().id + 1
        }
    }

    /// What holds of every catalog.
    pub open spec fn wf(self) -> bool {
        songs_ok(self.songs) && covers_ok(self.covers, self.songs)
    }
}

/// The song table after the drafts went to its end one by one, each under
/// the next id; or why the first draft that could not go in was refused.
pub open spec fn appended(songs: Seq<song::Row>, drafts: Seq<song::ActiveModel>) -> Result<
    Seq<song::Row>,
    DbErr,
>
    decreases drafts.len(),
{
    if drafts.len() == 0 {
        Ok(songs)
    } else {
        match appended(songs, drafts.drop_last()) {
            Ok(before) => {
                let table = Catalog {
                    data_path: Seq::empty(),
                    songs: before,
                    covers: Seq::empty(),
                };
                if table.has_path(drafts.last().path@) {
                    Err(DbErr::Duplicate)
                } else if table.next_song_id() > i32::MAX {
                    Err(DbErr::Exhausted)
                } else {
                    Ok(before.push(drafts.last().row(table.next_song_id() as i32)))
                }
            },
            Err(e) => Err(e),
        }
    }
}

/// No two rows of a song table share an id.
pub proof fn lemma_ids_distinct(songs: Seq<song::Row>)
    requires
        songs_ok(songs),
    ensures
        crate::query::distinct_ids(songs),
{
}

/// A song table stays one where a row goes to its end that stores no cover,
/// has an id above the last, and lies at a path that no row has.
pub proof fn lemma_songs_ok_push(songs: Seq<song::Row>, row: song::Row)
    requires
        songs_ok(songs),
        row.cover_art is None,
        row.id >= 1,
        songs.len() > 0 ==> songs.last().id < row.id,
        forall|i: int| 0 <= i < songs.len() ==> (#[trigger] songs[i]).path != row.path,
    ensures
        songs_ok(songs.push(row)),
{
    let after = songs.push(row);
    let n = songs.len() as int;
    assert forall|i: int| 0 <= i < after.len() implies (#[trigger] after[i]).id >= 1
        && after[i].cover_art is None by {
        if i < n {
            assert(after[i] == songs[i]);
        }
    }
    assert forall|i: int, j: int| 0 <= i < j < after.len() implies (#[trigger] after[i]).id < (
    #[trigger] after[j]).id && after[i].path != after[j].path by {
        assert(after[i] == songs[i]);
        if j < n {
            assert(after[j] == songs[j]);
        } else if i < n - 1 {
            assert(songs[i].id < songs[n - 1].id);
        }
    }
}

/// A cover table stays one where a cover goes to its end that has an id
/// above the last, lies in a shard and belongs to a song.
pub proof fn lemma_covers_ok_push(
    covers: Seq<cover_art::Row>,
    songs: Seq<song::Row>,
    row: cover_art::Row,
)
    requires
        covers_ok(covers, songs),
        row.id >= 1,
        covers.len() > 0 ==> covers.last().id < row.id,
        0 <= row.shard < cover_art::SHARDS,
        holds_song(songs, row.song),
    ensures
        covers_ok(covers.push(row), songs),
{
    let after = covers.push(row);
    let n = covers.len() as int;
    assert forall|i: int| 0 <= i < after.len() implies (#[trigger] after[i]).id >= 1 && 0
        <= after[i].shard < cover_art::SHARDS && holds_song(songs, after[i].song) by {
        if i < n {
            assert(after[i] == covers[i]);
        }
    }
    assert forall|i: int, j: int| 0 <= i < j < after.len() implies (#[trigger] after[i]).id < (
    #[trigger] after[j]).id by {
        assert(after[i] == covers[i]);
        if j < n {
            assert(after[j] == covers[j]);
        } else if i < n - 1 {
            assert(covers[i].id < covers[n - 1].id);
        }
    }
}

/// A cover table beside a song table stays one beside a longer song table.
pub proof fn lemma_covers_ok_grow(
    covers: Seq<cover_art::Row>,
    songs: Seq<song::Row>,
    more: Seq<song::Row>,
)
    requires
        covers_ok(covers, songs),
        songs.len() <= more.len(),
        forall|i: int| 0 <= i < songs.len() ==> songs[i] == more[i],
    ensures
        covers_ok(covers, more),
{
    assert forall|i: int| 0 <= i < covers.len() implies holds_song(
        more,
        (#[trigger] covers[i]).song,
    ) by {
        let k = choose|k: int| 0 <= k < songs.len() && (#[trigger] songs[k]).id == covers[i].song;
        assert(more[k].id == covers[i].song);
    }
}

/// The catalog.
pub struct DB {
    data_path: String,
    songs: Vec<song::Model>,
    covers: Vec<cover_art::Model>,
}

impl View for DB {
    type V = Catalog;

    closed spec fn view(&self) -> Catalog {
        Catalog {
            data_path: self.data_path@,
            songs: views(self.songs@),
            covers: views(self.covers@),
        }
    }
}

impl DB {
    #[verifier::type_invariant]
    spec fn inv(&self) -> bool {
        self@.wf()
    }

    /// An empty catalog whose files lie below `data_path`.
    pub fn new(data_path: &str) -> (r: DB)
        ensures
            r@ == (Catalog { data_path: data_path@, songs: Seq::empty(), covers: Seq::empty() }),
            r@.wf(),
    {
        let songs: Vec<song::Model> = Vec::new();
        let covers: Vec<cover_art::Model> = Vec::new();
        assert(views(songs@) =~= Seq::<song::Row>::empty());
        assert(views(covers@) =~= Seq::<cover_art::Row>::empty());
        DB { data_path: String::from_str(data_path), songs, covers }
    }

    /// Where the catalog's files lie.
    pub fn data_path(&self) -> (r: &str)
        ensures
            r@ == self@.data_path,
    {
        self.data_path.as_str()
    }

    /// The catalog that holds the given rows, as they were loaded from
    /// where a catalog is kept; none where the rows are not those of a
    /// catalog.
    pub fn restore(data_path: &str, songs: Vec<song::Model>, covers: Vec<cover_art::Model>) -> (r:
        Option<DB>)
        ensures
            match r {
                Some(db) => db@ == (Catalog {
                    data_path: data_path@,
                    songs: views(songs@),
                    covers: views(covers@),
                }) && db@.wf(),
                None => !(songs_ok(views(songs@)) && covers_ok(views(covers@), views(songs@))),
            },
    {
        let ghost rows = views(songs@);
        let ghost arts = views(covers@);
        let mut i: usize = 0;
        while i < songs.len()
            invariant
                i <= songs.len(),
                rows == views(songs@),
                songs_ok(rows.take(i as int)),
            decreases songs.len() - i,
        {
            let song = &songs[i];
            assert(rows[i as int] == song@);
            if song.id < 1 || song.cover_art.is_some() {
                return None;
            }
            if i > 0 {
                assert(rows[i - 1] == songs@[i - 1]@);
                if songs[i - 1].id >= song.id {
                    return None;
                }
            }
            if Self::path_within(&songs, i, song.path.as_str()) {
                let ghost j = choose|j: int| 0 <= j < i && (#[trigger] rows[j]).path == song@.path;
                assert(rows[j].path == rows[i as int].path);
                return None;
            }
            proof {
                let prev = rows.take(i as int);
                assert(i > 0 ==> prev.last() == rows[i - 1]);
                assert forall|a: int| 0 <= a < prev.len() implies (#[trigger] prev[a]).path
                    != rows[i as int].path by {
                    assert(prev[a] == rows[a]);
                }
                lemma_songs_ok_push(prev, rows[i as int]);
                assert(prev.push(rows[i as int]) =~= rows.take(i + 1));
            }
            i = i + 1;
        }
        assert(rows.take(i as int) =~= rows);
        let mut k: usize = 0;
        while k < covers.len()
            invariant
                k <= covers.len(),
                rows == views(songs@),
                arts == views(covers@),
                covers_ok(arts.take(k as int), rows),
            decreases covers.len() - k,
        {
            let cover = &covers[k];
            assert(arts[k as int] == cover@);
            if cover.id < 1 || cover.shard < 0 || cover.shard >= cover_art::SHARDS {
                return None;
            }
            if k > 0 {
                assert(arts[k - 1] == covers@[k - 1]@);
                if covers[k - 1].id >= cover.id {
                    return None;
                }
            }
            if !Self::id_within(&songs, cover.song) {
                return None;
            }
            proof {
                let prev = arts.take(k as int);
                assert(k > 0 ==> prev.last() == arts[k - 1]);
                lemma_covers_ok_push(prev, rows, arts[k as int]);
                assert(prev.push(arts[k as int]) =~= arts.take(k + 1));
            }
            k = k + 1;
        }
        assert(arts.take(k as int) =~= arts);
        Some(DB { data_path: String::from_str(data_path), songs, covers })
    }

    fn path_within(songs: &Vec<song::Model>, end: usize, path: &str) -> (r: bool)
        requires
            end <= songs.len(),
        ensures
            r == exists|j: int| 0 <= j < end && (#[trigger] views(songs@)[j]).path == path@,
    {
        let mut i: usize = 0;
        while i < end
            invariant
                i <= end <= songs.len(),
                forall|k: int| 0 <= k < i ==> (#[trigger] views(songs@)[k]).path != path@,
            decreases end - i,
        {
            if same(songs[i].path.as_str(), path) {
                assert(views(songs@)[i as int].path == path@);
                return true;
            }
            i = i + 1;
        }
        false
    }

    fn id_within(songs: &Vec<song::Model>, id: i32) -> (r: bool)
        ensures
            r == holds_song(views(songs@), id),
    {
        let mut i: usize = 0;
        while i < songs.len()
            invariant
                i <= songs.len(),
                forall|k: int| 0 <= k < i ==> (#[trigger] views(songs@)[k]).id != id,
            decreases songs.len() - i,
        {
            if songs[i].id == id {
                assert(views(songs@)[i as int].id == id);
                return true;
            }
            i = i + 1;
        }
        false
    }

    /// Whether a song lies at `path`.
    pub fn song_already_in_db(&self, path: &str) -> (r: bool)
        ensures
            r == self@.has_path(path@),
    {
        Self::path_within(&self.songs, self.songs.len(), path)
    }

    /// Adds the songs in one piece: each goes to the end of the table under
    /// the next id, and where one of them cannot go in, none does and the
    /// catalog stays as it was.
    pub fn add_all(&mut self, songs: Vec<song::ActiveModel>) -> (r: Result<(), DbErr>)
        ensures
            match appended(old(self)@.songs, songs@) {
                Ok(table) => r is Ok && final(self)@ == (Catalog { songs: table, ..old(self)@ }),
                Err(e) => r == Err::<(), DbErr>(e) && final(self)@ == old(self)@,
            },
            final(self)@.wf(),
    {
        proof {
            use_type_invariant(&*self);
        }
        let ghost before = self@;
        let ghost drafts = songs@;
        let mut whole = DB::new("");
        core::mem::swap(self, &mut whole);
        let DB { data_path, songs: mut table, covers } = whole;
        let kept: usize = table.len();
        let mut failure: Option<DbErr> = None;
        for draft in it: songs
            invariant
                it.seq() == drafts,
                kept == before.songs.len(),
                kept <= table.len(),
                views(table@).take(kept as int) == before.songs,
                songs_ok(before.songs),
                data_path@ == before.data_path,
                views(covers@) == before.covers,
                self@.wf(),
                match failure {
                    Some(e) => appended(before.songs, drafts.take(it.index())) == Err::<
                        Seq<song::Row>,
                        DbErr,
                    >(e),
                    None => appended(before.songs, drafts.take(it.index())) == Ok::<
                        Seq<song::Row>,
                        DbErr,
                    >(views(table@)) && songs_ok(views(table@)),
                },
        {
            let ghost done = drafts.take(it.index());
            let ghost next = drafts.take(it.index() + 1);
            assert(next.drop_last() =~= done);
            assert(next.last() == draft);
            if failure.is_none() {
                let ghost rows = views(table@);
                let ghost as_catalog = Catalog {
                    data_path: Seq::empty(),
                    songs: rows,
                    covers: Seq::empty(),
                };
                let n: usize = table.len();
                if Self::path_within(&table, n, draft.path.as_str()) {
                    failure = Some(DbErr::Duplicate);
                } else if n > 0 && table[n - 1].id == i32::MAX {
                    assert(rows[n - 1] == table@[n - 1]@);
                    failure = Some(DbErr::Exhausted);
                } else {
                    let id: i32 = if n == 0 {
                        1
                    } else {
                        table[n - 1].id + 1
                    };
                    assert(n > 0 ==> rows[n - 1] == table@[n - 1]@);
                    let row = draft.into_model(id);
                    table.push(row);
                    proof {
                        let after = views(table@);
                        assert(after =~= rows.push(row@));
                        assert(after.take(kept as int) =~= rows.take(kept as int));
                        lemma_songs_ok_push(rows, row@);
                    }
                }
            }
        }
        assert(drafts.take(drafts.len() as int) =~= drafts);
        match failure {
            Some(e) => {
                table.truncate(kept);
                assert(views(table@) =~= before.songs);
                *self = DB { data_path, songs: table, covers };
                Err(e)
            },
            None => {
                proof {
                    let after = views(table@);
                    assert forall|i: int| 0 <= i < before.songs.len() implies before.songs[i]
                        == after[i] by {
                        assert(after.take(kept as int)[i] == after[i]);
                    }
                    lemma_covers_ok_grow(before.covers, before.songs, after);
                }
                *self = DB { data_path, songs: table, covers };
                Ok(())
            },
        }
    }

    /// Every song, in the order of the ids.
    pub fn all_songs(&self) -> (r: Vec<song::Model>)
        ensures
            views(r@) == self@.songs,
            self@.wf(),
    {
        proof {
            use_type_invariant(self);
        }
        let mut out: Vec<song::Model> = Vec::new();
        let mut i: usize = 0;
        while i < self.songs.len()
            invariant
                i <= self.songs.len(),
                views(out@) == self@.songs.take(i as int),
            decreases self.songs.len() - i,
        {
            let ghost prev = out@;
            out.push(self.songs[i].clone());
            assert(views(out@) =~= views(prev).push(self.songs@[i as int]@));
            assert(views(out@) =~= self@.songs.take(i + 1));
            i = i + 1;
        }
        assert(self@.songs.take(i as int) =~= self@.songs);
        out
    }

    /// Adds a song. A song whose path the catalog holds already is refused
    /// as a duplicate and leaves the catalog as it was; any other gets the
    /// next id and goes to the end of the table.
    pub fn insert_song(&mut self, draft: song::ActiveModel) -> (r: Result<i32, DbErr>)
        ensures
            match r {
                Ok(id) => {
                    &&& !old(self)@.has_path(draft.path@)
                    &&& id == old(self)@.next_song_id()
                    &&& final(self)@ == (Catalog {
                        songs: old(self)@.songs.push(draft.row(id)),
                        ..old(self)@
                    })
                },
                Err(e) => {
                    &&& final(self)@ == old(self)@
                    &&& match e {
                        DbErr::Duplicate => old(self)@.has_path(draft.path@),
                        DbErr::Exhausted => {
                            &&& !old(self)@.has_path(draft.path@)
                            &&& old(self)@.next_song_id() > i32::MAX
                        },
                        _ => false,
                    }
                },
            },
            final(self)@.wf(),
    {
        proof {
            use_type_invariant(&*self);
        }
        if self.song_already_in_db(draft.path.as_str()) {
            return Err(DbErr::Duplicate);
        }
        let n: usize = self.songs.len();
        let id: i32 = if n == 0 {
            1
        } else {
            let last: i32 = self.songs[n - 1].id;
            if last == i32::MAX {
                return Err(DbErr::Exhausted);
            }
            last + 1
        };
        let row = draft.into_model(id);
        let ghost before = self@;
        assert(views(self.songs@.push(row)) =~= before.songs.push(row@));
        assert(n > 0 ==> before.songs[n - 1].id == self.songs@[n - 1].id);
        proof {
            lemma_songs_ok_push(before.songs, row@);
            lemma_covers_ok_grow(before.covers, before.songs, before.songs.push(row@));
        }
        let mut whole = DB::new("");
        core::mem::swap(self, &mut whole);
        let DB { data_path, mut songs, covers } = whole;
        songs.push(row);
        *self = DB { data_path, songs, covers };
        Ok(id)
    }

    /// Adds a cover for the song `song_id`. A shard outside `0..SHARDS` is
    /// refused, then a song that the catalog does not hold; any other cover
    /// gets the next id and goes to the end of the table.
    pub fn insert_cover_art(&mut self, song_id: i32, mime_type: &str, shard: i32) -> (r: Result<
        i32,
        DbErr,
    >)
        ensures
            match r {
                Ok(id) => {
                    &&& 0 <= shard < cover_art::SHARDS
                    &&& old(self)@.has_song(song_id)
                    &&& id == old(self)@.next_cover_id()
                    &&& final(self)@ == (Catalog {
                        covers: old(self)@.covers.push(
                            cover_art::Row { id, shard, mime_type: mime_type@, song: song_id },
                        ),
                        ..old(self)@
                    })
                },
                Err(e) => {
                    &&& final(self)@ == old(self)@
                    &&& match e {
                        DbErr::ShardOutOfRange => !(0 <= shard < cover_art::SHARDS),
                        DbErr::UnknownSong => {
                            &&& 0 <= shard < cover_art::SHARDS
                            &&& !old(self)@.has_song(song_id)
                        },
                        DbErr::Exhausted => {
                            &&& 0 <= shard < cover_art::SHARDS
                            &&& old(self)@.has_song(song_id)
                            &&& old(self)@.next_cover_id() > i32::MAX
                        },
                        DbErr::Duplicate => false,
                    }
                },
            },
            final(self)@.wf(),
    {
        proof {
            use_type_invariant(&*self);
        }
        if shard < 0 || shard >= cover_art::SHARDS {
            return Err(DbErr::ShardOutOfRange);
        }
        if !self.holds(song_id) {
            return Err(DbErr::UnknownSong);
        }
        let n: usize = self.covers.len();
        let id: i32 = if n == 0 {
            1
        } else {
            let last: i32 = self.covers[n - 1].id;
            if last == i32::MAX {
                return Err(DbErr::Exhausted);
            }
            last + 1
        };
        let row = cover_art::Model {
            id,
            shard,
            mime_type: String::from_str(mime_type),
            song: song_id,
        };
        let ghost before = self@;
        assert(views(self.covers@.push(row)) =~= before.covers.push(row@));
        assert(n > 0 ==> before.covers[n - 1].id == self.covers@[n - 1].id);
        proof {
            lemma_covers_ok_push(before.covers, before.songs, row@);
        }
        let mut whole = DB::new("");
        core::mem::swap(self, &mut whole);
        let DB { data_path, songs, mut covers } = whole;
        covers.push(row);
        *self = DB { data_path, songs, covers };
        Ok(id)
    }

    fn holds(&self, id: i32) -> (r: bool)
        ensures
            r == self@.has_song(id),
    {
        Self::id_within(&self.songs, id)
    }

    fn cover_for(&self, song_id: i32) -> (r: Option<usize>)
        ensures
            match r {
                Some(at) => at < self.covers.len() && cover_of_song(self@.covers, song_id) == Some(
                    self.covers@[at as int]@,
                ),
                None => cover_of_song(self@.covers, song_id) is None,
            },
    {
        let mut i: usize = 0;
        assert(self@.covers.skip(0) =~= self@.covers);
        while i < self.covers.len()
            invariant
                i <= self.covers.len(),
                cover_of_song(self@.covers, song_id) == cover_of_song(
                    self@.covers.skip(i as int),
                    song_id,
                ),
            decreases self.covers.len() - i,
        {
            assert(self@.covers.skip(i as int).drop_first() =~= self@.covers.skip(i + 1));
            assert(self@.covers.skip(i as int)[0] == self.covers@[i as int]@);
            if self.covers[i].song == song_id {
                return Some(i);
            }
            i = i + 1;
        }
        None
    }

    /// The cover with the id that `id` writes in decimal; none where `id`
    /// writes no number or no cover has that id.
    pub fn get_cover_art(&self, id: &str) -> (r: Option<cover_art::Model>)
        ensures
            match parse_i32_spec(id@) {
                Some(n) => match cover_by_id(self@.covers, n) {
                    Some(row) => r is Some && r->0@ == row,
                    None => r is None,
                },
                None => r is None,
            },
    {
        let n = match parse_i32(id) {
            Some(n) => n,
            None => {
                return None;
            },
        };
        let mut i: usize = 0;
        assert(self@.covers.skip(0) =~= self@.covers);
        while i < self.covers.len()
            invariant
                i <= self.covers.len(),
                parse_i32_spec(id@) == Some(n),
                cover_by_id(self@.covers, n) == cover_by_id(self@.covers.skip(i as int), n),
            decreases self.covers.len() - i,
        {
            assert(self@.covers.skip(i as int).drop_first() =~= self@.covers.skip(i + 1));
            assert(self@.covers.skip(i as int)[0] == self.covers@[i as int]@);
            if self.covers[i].id == n {
                return Some(self.covers[i].clone());
            }
            i = i + 1;
        }
        None
    }

    /// The first cover that belongs to the song `song_id`.
    pub fn get_cover_art_for_song(&self, song_id: i32) -> (r: Option<cover_art::Model>)
        ensures
            match cover_of_song(self@.covers, song_id) {
                Some(row) => r is Some && r->0@ == row,
                None => r is None,
            },
    {
        match self.cover_for(song_id) {
            Some(at) => Some(self.covers[at].clone()),
            None => None,
        }
    }

    fn dress(&self, song: &song::Model) -> (r: song::Model)
        ensures
            r@ == with_cover(song@, self@.covers),
    {
        let mut out = song.clone();
        out.cover_art = match self.cover_for(song.id) {
            Some(at) => Some(i32_to_string(self.covers[at].id)),
            None => None,
        };
        out
    }

    /// The song with the id that `id` writes in decimal, with its cover;
    /// none where `id` writes no number or no song has that id.
    pub fn get_song(&self, id: &str) -> (r: Option<song::Model>)
        ensures
            match parse_i32_spec(id@) {
                Some(n) => match song_by_id(self@.songs, n) {
                    Some(row) => r is Some && r->0@ == with_cover(row, self@.covers),
                    None => r is None,
                },
                None => r is None,
            },
    {
        let n = match parse_i32(id) {
            Some(n) => n,
            None => {
                return None;
            },
        };
        let mut i: usize = 0;
        assert(self@.songs.skip(0) =~= self@.songs);
        while i < self.songs.len()
            invariant
                i <= self.songs.len(),
                parse_i32_spec(id@) == Some(n),
                song_by_id(self@.songs, n) == song_by_id(self@.songs.skip(i as int), n),
            decreases self.songs.len() - i,
        {
            assert(self@.songs.skip(i as int).drop_first() =~= self@.songs.skip(i + 1));
            assert(self@.songs.skip(i as int)[0] == self.songs@[i as int]@);
            if self.songs[i].id == n {
                return Some(self.dress(&self.songs[i]));
            }
            i = i + 1;
        }
        None
    }

    /// The artists whose names hold every word of `filter`, each once, in
    /// ascending order; with a limit, the page of that listing.
    pub fn get_artists(&self, filter: &str, limit: Option<u32>, offset: Option<u32>) -> (r: Vec<
        Artist,
    >)
        ensures
            views(r@) == window(artists_of(self@.songs, words_of(filter@)), limit, offset),
    {
        let tokens = words(filter);
        windowed(list_artists(&self.songs, &tokens), limit, offset)
    }

    /// The albums whose titles hold every word of `filter`, each with its
    /// artist, each pair once, in ascending order; with a limit, the page
    /// of that listing.
    pub fn get_albums(&self, filter: &str, limit: Option<u32>, offset: Option<u32>) -> (r: Vec<
        Album,
    >)
        ensures
            views(r@) == window(albums_of(self@.songs, words_of(filter@)), limit, offset),
    {
        let tokens = words(filter);
        windowed(list_albums(&self.songs, &tokens), limit, offset)
    }

    /// The page of the songs that the words of `filter` match, in ascending
    /// order of the title, each with its cover.
    pub fn get_songs(&self, filter: &str, limit: Option<u32>, offset: Option<u32>) -> (r: Vec<
        song::Model,
    >)
        ensures
            views(r@) == with_covers(
                page(songs_of(self@.songs, words_of(filter@)), limit, offset),
                self@.covers,
            ),
    {
        let tokens = words(filter);
        let found = paged(list_songs(&self.songs, &tokens), limit, offset);
        let mut out: Vec<song::Model> = Vec::new();
        let mut i: usize = 0;
        while i < found.len()
            invariant
                i <= found.len(),
                views(out@) == with_covers(views(found@).take(i as int), self@.covers),
            decreases found.len() - i,
        {
            let ghost prev = out@;
            out.push(self.dress(&found[i]));
            assert(views(out@) =~= views(prev).push(with_cover(found@[i as int]@, self@.covers)));
            assert(views(out@) =~= with_covers(views(found@).take(i + 1), self@.covers));
            i = i + 1;
        }
        assert(views(found@).take(i as int) =~= views(found@));
        out
    }

    /// Answers a search: the double quotes leave the query, and its words
    /// select the artists by name, the albums by title and the songs by
    /// title, artist or album; each listing is cut to its own page.
    pub fn query(&self, query: &Search3) -> (r: QueryResult)
        ensures
            views(r.artists@) == window(
                artists_of(self@.songs, search_words(query.query@)),
                query.artist_count,
                query.artist_offset,
            ),
            views(r.albums@) == window(
                albums_of(self@.songs, search_words(query.query@)),
                query.album_count,
                query.album_offset,
            ),
            views(r.songs@) == with_covers(
                page(
                    songs_of(self@.songs, search_words(query.query@)),
                    query.song_count,
                    query.song_offset,
                ),
                self@.covers,
            ),
    {
        let user_query = strip_quotes(query.query.as_str());
        let albums = self.get_albums(user_query.as_str(), query.album_count, query.album_offset);
        let artists = self.get_artists(
            user_query.as_str(),
            query.artist_count,
            query.artist_offset,
        );
        let songs = self.get_songs(user_query.as_str(), query.song_count, query.song_offset);
        QueryResult { artists, albums, songs }
    }
}

} // verus!
