//! A picture that went in with its song comes out again under the cover id
//! that the song shows.

use crate::entity::{cover_art, song};
use crate::indexer::db::{
    cover_by_id, cover_of_song, holds_song, song_by_id, with_cover, Catalog,
};
use crate::indexer::{reported, shard_of, stored, Extract, Stored};
use crate::text::{decimal, lemma_decimal_round_trip, parse_i32_spec};
use vstd::prelude::*;

verus! {

/// A row that goes to the end of a song table under an id that no row of
/// the table has is the row of that id.
pub proof fn lemma_song_found(songs: Seq<song::Row>, row: song::Row)
    requires
        !holds_song(songs, row.id),
    ensures
        song_by_id(songs.push(row), row.id) == Some(row),
    decreases songs.len(),
{
    let all = songs.push(row);
    if songs.len() > 0 {
        assert(songs[0].id != row.id);
        let rest = songs.drop_first();
        assert(!holds_song(rest, row.id)) by {
            if holds_song(rest, row.id) {
                let i = choose|i: int| 0 <= i < rest.len() && (#[trigger] rest[i]).id == row.id;
                assert(songs[i + 1].id == row.id);
            }
        }
        lemma_song_found(rest, row);
        assert(all.drop_first() =~= rest.push(row));
    } else {
        assert(all[0] == row);
    }
}

/// A cover that goes to the end of a cover table under an id that no cover
/// of the table has, for a song that no cover of the table belongs to, is
/// the cover of that id and the first cover of that song.
pub proof fn lemma_cover_found(covers: Seq<cover_art::Row>, row: cover_art::Row)
    requires
        forall|i: int| 0 <= i < covers.len() ==> (#[trigger] covers[i]).id != row.id,
        forall|i: int| 0 <= i < covers.len() ==> (#[trigger] covers[i]).song != row.song,
    ensures
        cover_by_id(covers.push(row), row.id) == Some(row),
        cover_of_song(covers.push(row), row.song) == Some(row),
    decreases covers.len(),
{
    let all = covers.push(row);
    if covers.len() > 0 {
        assert(covers[0].id != row.id);
        assert(covers[0].song != row.song);
        let rest = covers.drop_first();
        assert forall|i: int| 0 <= i < rest.len() implies (#[trigger] rest[i]).id != row.id
            && rest[i].song != row.song by {
            assert(rest[i] == covers[i + 1]);
        }
        lemma_cover_found(rest, row);
        assert(all.drop_first() =~= rest.push(row));
    } else {
        assert(all[0] == row);
    }
}

/// Where a file with a picture goes into the catalog, the song that comes
/// out under its id shows a cover id, and the cover that comes out under
/// that id has the media type of the file's first picture and the shard
/// that was picked; and what is reported holds the bytes of that picture,
/// to be written where the cover is looked for.
pub proof fn lemma_cover_round_trip(c: Catalog, result: Extract, dice: u32, report: Stored)
    requires
        c.wf(),
        !c.has_path(result.entry.path),
        c.next_song_id() <= i32::MAX,
        c.next_cover_id() <= i32::MAX,
        result.pictures().len() > 0,
        reported(c, result, dice, report),
    ensures
        report is SongWithCover,
        report->SongWithCover_1.data@ == result.pictures()[0].data@,
        report->SongWithCover_1.path@ == cover_art::blob_path(
            c.next_cover_id() as i32,
            shard_of(dice),
            stored(c, result, dice).data_path,
        ),
        ({
            let after = stored(c, result, dice);
            let song_id = c.next_song_id() as i32;
            let cover_id = c.next_cover_id() as i32;
            let shown = with_cover(song_by_id(after.songs, song_id)->0, after.covers);
            &&& song_by_id(after.songs, song_id) == Some(result.row(song_id))
            &&& shown.cover_art == Some(decimal(cover_id as int))
            &&& parse_i32_spec(shown.cover_art->0) == Some(cover_id)
            &&& cover_by_id(after.covers, cover_id) == Some(
                cover_art::Row {
                    id: cover_id,
                    shard: shard_of(dice),
                    mime_type: result.pictures()[0].mime_type@,
                    song: song_id,
                },
            )
        }),
{
    let after = stored(c, result, dice);
    let song_id = c.next_song_id() as i32;
    let cover_id = c.next_cover_id() as i32;
    let row = result.row(song_id);
    let cover = cover_art::Row {
        id: cover_id,
        shard: shard_of(dice),
        mime_type: result.pictures()[0].mime_type@,
        song: song_id,
    };
    assert(!holds_song(c.songs, song_id)) by {
        if holds_song(c.songs, song_id) {
            let i = choose|i: int| 0 <= i < c.songs.len() && (#[trigger] c.songs[i]).id == song_id;
            if i < c.songs.len() - 1 {
                assert(c.songs[i].id < c.songs[c.songs.len() - 1].id);
            }
        }
    }
    lemma_song_found(c.songs, row);
    assert forall|i: int| 0 <= i < c.covers.len() implies (#[trigger] c.covers[i]).id != cover_id
        && c.covers[i].song != song_id by {
        if i < c.covers.len() - 1 {
            assert(c.covers[i].id < c.covers[c.covers.len() - 1].id);
        }
        assert(holds_song(c.songs, c.covers[i].song));
    }
    lemma_cover_found(c.covers, cover);
    lemma_decimal_round_trip(cover_id);
}


/// No two covers belong to one song.
pub open spec fn one_cover_each(covers: Seq<cover_art::Row>) -> bool {
    forall|i: int, j: int|
        0 <= i < j < covers.len() ==> (#[trigger] covers[i]).song != (#[trigger] covers[j]).song
}

/// The indexer gives a song one cover at most: where no two covers of the
/// catalog belong to one song, none do after a result went in.
pub proof fn lemma_one_cover_each(c: Catalog, result: Extract, dice: u32)
    requires
        c.wf(),
        one_cover_each(c.covers),
    ensures
        one_cover_each(stored(c, result, dice).covers),
{
    let after = stored(c, result, dice).covers;
    if after.len() > c.covers.len() {
        let song_id = c.next_song_id() as i32;
        assert(!holds_song(c.songs, song_id)) by {
            if holds_song(c.songs, song_id) {
                let i = choose|i: int|
                    0 <= i < c.songs.len() && (#[trigger] c.songs[i]).id == song_id;
                if i < c.songs.len() - 1 {
                    assert(c.songs[i].id < c.songs[c.songs.len() - 1].id);
                }
            }
        }
        assert forall|i: int, j: int| 0 <= i < j < after.len() implies (#[trigger] after[i]).song
            != (#[trigger] after[j]).song by {
            assert(after[i] == c.covers[i]);
            if j < c.covers.len() {
                assert(after[j] == c.covers[j]);
            } else {
                assert(holds_song(c.songs, c.covers[i].song));
            }
        }
    }
}

} // verus!
