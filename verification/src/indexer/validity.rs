//! Whatever the indexer writes, the catalog stays a catalog: no two songs
//! share a path, and every cover lies in a shard and belongs to a song.

use crate::entity::cover_art;
use crate::indexer::db::{
    holds_song, lemma_covers_ok_grow, lemma_covers_ok_push, lemma_songs_ok_push, Catalog,
};
use crate::indexer::pipeline::{extract_of, indexed_as, ran, Scanned};
use crate::indexer::{shard_of, stored, Extract};
use vstd::prelude::*;

verus! {

/// A catalog stays one where a result goes to it.
pub proof fn lemma_stored_wf(c: Catalog, result: Extract, dice: u32)
    requires
        c.wf(),
    ensures
        stored(c, result, dice).wf(),
{
    if !(c.has_path(result.entry.path) || c.next_song_id() > i32::MAX) {
        let id = c.next_song_id() as i32;
        let row = result.row(id);
        let songs = c.songs.push(row);
        lemma_songs_ok_push(c.songs, row);
        lemma_covers_ok_grow(c.covers, c.songs, songs);
        if !(result.pictures().len() == 0 || c.next_cover_id() > i32::MAX) {
            let cover = cover_art::Row {
                id: c.next_cover_id() as i32,
                shard: shard_of(dice),
                mime_type: result.pictures()[0].mime_type@,
                song: id,
            };
            assert(holds_song(songs, id)) by {
                assert(songs[songs.len() - 1].id == id);
            }
            lemma_covers_ok_push(c.covers, songs, cover);
        }
    }
}

/// A catalog stays one through a run.
pub proof fn lemma_ran_wf(
    c: Catalog,
    enable: bool,
    exclude: Seq<Seq<char>>,
    known: Seq<Seq<char>>,
    tree: Seq<Scanned>,
    dice: Seq<u32>,
)
    requires
        c.wf(),
    ensures
        ran(c, enable, exclude, known, tree, dice).wf(),
    decreases tree.len(),
{
    if tree.len() > 0 {
        lemma_ran_wf(c, enable, exclude, known, tree.drop_last(), dice);
        let before = ran(c, enable, exclude, known, tree.drop_last(), dice);
        match indexed_as(enable, exclude, known, tree.last()) {
            Some(entry) => {
                lemma_stored_wf(before, extract_of(tree.last(), entry), dice[tree.len() - 1]);
            },
            None => {},
        }
    }
}

} // verus!
