//! A second run over an unchanged tree writes nothing, and finds nothing to
//! do where the first run had a song id for each file.

use crate::indexer::db::{Catalog, DbErr};
use crate::indexer::pipeline::{extract_of, indexed_as, ran, reports_fit, Scanned};
use crate::indexer::{entry_of, paths_of, stored, Extract, Stored};
use vstd::prelude::*;

verus! {

/// A catalog holds a path exactly where the path is among the paths of its
/// songs.
pub proof fn lemma_paths(c: Catalog, path: Seq<char>)
    ensures
        c.has_path(path) <==> paths_of(c.songs).contains(path),
{
    if c.has_path(path) {
        let i = choose|i: int| 0 <= i < c.songs.len() && (#[trigger] c.songs[i]).path == path;
        assert(paths_of(c.songs)[i] == path);
    }
    if paths_of(c.songs).contains(path) {
        let i = choose|i: int| 0 <= i < paths_of(c.songs).len() && paths_of(c.songs)[i] == path;
        assert(c.songs[i].path == path);
    }
}

/// Writing a result keeps every path that the catalog held, uses up one
/// song id at most, and, while song ids are left, leaves the path of the
/// result in the catalog.
pub proof fn lemma_stored_grows(c: Catalog, result: Extract, dice: u32)
    ensures
        forall|path: Seq<char>|
            c.has_path(path) ==> #[trigger] stored(c, result, dice).has_path(path),
        stored(c, result, dice).next_song_id() <= c.next_song_id() + 1,
        stored(c, result, dice).next_song_id() >= c.next_song_id(),
        c.next_song_id() <= i32::MAX ==> stored(c, result, dice).has_path(result.entry.path),
{
    let after = stored(c, result, dice);
    assert forall|path: Seq<char>| c.has_path(path) implies #[trigger] after.has_path(path) by {
        let i = choose|i: int| 0 <= i < c.songs.len() && (#[trigger] c.songs[i]).path == path;
        if after.songs.len() > c.songs.len() {
            assert(after.songs[i] == c.songs[i]);
        }
    }
    if !c.has_path(result.entry.path) && c.next_song_id() <= i32::MAX {
        assert(after.songs[c.songs.len() as int].path == result.entry.path);
    }
}

/// A run keeps every path that the catalog held and uses up one song id
/// for each file at most. The path of each file that reached the writer is
/// in the catalog afterwards, unless the song ids have run out; where an id
/// was left for each file, they have not.
pub proof fn lemma_ran_grows(
    c: Catalog,
    enable: bool,
    exclude: Seq<Seq<char>>,
    known: Seq<Seq<char>>,
    tree: Seq<Scanned>,
    dice: Seq<u32>,
)
    requires
        dice.len() >= tree.len(),
    ensures
        forall|path: Seq<char>|
            c.has_path(path) ==> #[trigger] ran(c, enable, exclude, known, tree, dice).has_path(
                path,
            ),
        c.next_song_id() <= ran(c, enable, exclude, known, tree, dice).next_song_id()
            <= c.next_song_id() + tree.len(),
        c.next_song_id() + tree.len() <= i32::MAX + 1 ==> forall|i: int|
            0 <= i < tree.len() && indexed_as(enable, exclude, known, #[trigger] tree[i]) is Some
                ==> ran(c, enable, exclude, known, tree, dice).has_path(tree[i].path@),
        forall|i: int|
            0 <= i < tree.len() && indexed_as(enable, exclude, known, #[trigger] tree[i]) is Some
                ==> ran(c, enable, exclude, known, tree, dice).has_path(tree[i].path@) || ran(
                c,
                enable,
                exclude,
                known,
                tree,
                dice,
            ).next_song_id() > i32::MAX,
    decreases tree.len(),
{
    if tree.len() > 0 {
        let front = tree.drop_last();
        let before = ran(c, enable, exclude, known, front, dice);
        let after = ran(c, enable, exclude, known, tree, dice);
        lemma_ran_grows(c, enable, exclude, known, front, dice);
        let last = tree.last();
        match indexed_as(enable, exclude, known, last) {
            Some(entry) => {
                lemma_stored_grows(before, extract_of(last, entry), dice[tree.len() - 1]);
                assert(entry.path == last.path@);
            },
            None => {},
        }
        assert forall|path: Seq<char>| c.has_path(path) implies #[trigger] after.has_path(path) by {
            assert(before.has_path(path));
        }
        if c.next_song_id() + tree.len() <= i32::MAX + 1 {
            assert forall|i: int|
                0 <= i < tree.len() && indexed_as(
                    enable,
                    exclude,
                    known,
                    #[trigger] tree[i],
                ) is Some implies after.has_path(tree[i].path@) by {
                if i < front.len() {
                    assert(front[i] == tree[i]);
                    assert(before.has_path(tree[i].path@));
                }
            }
        }
        assert forall|i: int|
            0 <= i < tree.len() && indexed_as(
                enable,
                exclude,
                known,
                #[trigger] tree[i],
            ) is Some implies after.has_path(tree[i].path@) || after.next_song_id()
            > i32::MAX by {
            if i < front.len() {
                assert(front[i] == tree[i]);
                if before.has_path(tree[i].path@) {
                    assert(after.has_path(tree[i].path@));
                }
            }
        }
    }
}

/// A run in which no file reaches the writer leaves the catalog as it was,
/// and reports nothing.
pub proof fn lemma_ran_idle(
    c: Catalog,
    enable: bool,
    exclude: Seq<Seq<char>>,
    known: Seq<Seq<char>>,
    tree: Seq<Scanned>,
    dice: Seq<u32>,
)
    requires
        forall|i: int|
            0 <= i < tree.len() ==> indexed_as(enable, exclude, known, #[trigger] tree[i]) is None,
    ensures
        ran(c, enable, exclude, known, tree, dice) == c,
        reports_fit(c, enable, exclude, known, tree, dice, Seq::<Stored>::empty()),
    decreases tree.len(),
{
    if tree.len() > 0 {
        let front = tree.drop_last();
        assert forall|i: int| 0 <= i < front.len() implies indexed_as(
            enable,
            exclude,
            known,
            #[trigger] front[i],
        ) is None by {
            assert(front[i] == tree[i]);
        }
        lemma_ran_idle(c, enable, exclude, known, front, dice);
        assert(indexed_as(enable, exclude, known, tree[tree.len() - 1]) is None);
    }
}

/// A run from a catalog whose song ids have run out, over files of which
/// none that reaches the writer is in the catalog, leaves the catalog as it
/// was: each such file is refused for want of an id, and nothing is
/// written.
pub proof fn lemma_ran_exhausted(
    c: Catalog,
    enable: bool,
    exclude: Seq<Seq<char>>,
    known: Seq<Seq<char>>,
    tree: Seq<Scanned>,
    dice: Seq<u32>,
    reports: Seq<Stored>,
)
    requires
        forall|i: int|
            0 <= i < tree.len() && indexed_as(enable, exclude, known, #[trigger] tree[i]) is Some
                ==> !c.has_path(tree[i].path@) && c.next_song_id() > i32::MAX,
    ensures
        ran(c, enable, exclude, known, tree, dice) == c,
        reports_fit(c, enable, exclude, known, tree, dice, reports) ==> forall|j: int|
            0 <= j < reports.len() ==> #[trigger] reports[j] == Stored::Skipped(DbErr::Exhausted),
    decreases tree.len(),
{
    if tree.len() > 0 {
        let front = tree.drop_last();
        let last = tree[tree.len() - 1];
        assert forall|i: int|
            0 <= i < front.len() && indexed_as(
                enable,
                exclude,
                known,
                #[trigger] front[i],
            ) is Some implies !c.has_path(front[i].path@) && c.next_song_id() > i32::MAX by {
            assert(front[i] == tree[i]);
        }
        lemma_ran_exhausted(c, enable, exclude, known, front, dice, reports);
        match indexed_as(enable, exclude, known, last) {
            Some(entry) => {
                assert(entry.path == last.path@);
                if reports.len() > 0 {
                    lemma_ran_exhausted(
                        c,
                        enable,
                        exclude,
                        known,
                        front,
                        dice,
                        reports.drop_last(),
                    );
                    if reports_fit(c, enable, exclude, known, tree, dice, reports) {
                        assert forall|j: int| 0 <= j < reports.len() implies #[trigger] reports[j]
                            == Stored::Skipped(DbErr::Exhausted) by {
                            if j < reports.len() - 1 {
                                assert(reports.drop_last()[j] == reports[j]);
                            }
                        }
                    }
                }
            },
            None => {},
        }
    }
}

/// Running the pipeline a second time over the same tree leaves the catalog
/// as the first run left it, whatever random numbers either run draws: no
/// song, no cover and no picture is written. A file reaches the writer
/// again only where the first run had no song id left for it, and is
/// refused again for want of one.
pub proof fn lemma_second_run_keeps(
    c: Catalog,
    enable: bool,
    exclude: Seq<Seq<char>>,
    tree: Seq<Scanned>,
    first: Seq<u32>,
    second: Seq<u32>,
    reports: Seq<Stored>,
)
    requires
        first.len() == tree.len(),
        second.len() == tree.len(),
    ensures
        ({
            let once = ran(c, enable, exclude, paths_of(c.songs), tree, first);
            &&& ran(once, enable, exclude, paths_of(once.songs), tree, second) == once
            &&& reports_fit(once, enable, exclude, paths_of(once.songs), tree, second, reports)
                ==> forall|j: int|
                0 <= j < reports.len() ==> #[trigger] reports[j] == Stored::Skipped(
                    DbErr::Exhausted,
                )
        }),
{
    let known = paths_of(c.songs);
    let once = ran(c, enable, exclude, known, tree, first);
    let again = paths_of(once.songs);
    lemma_ran_grows(c, enable, exclude, known, tree, first);
    assert forall|i: int|
        0 <= i < tree.len() && indexed_as(
            enable,
            exclude,
            again,
            #[trigger] tree[i],
        ) is Some implies !once.has_path(tree[i].path@) && once.next_song_id() > i32::MAX by {
        let item = tree[i];
        let entry = entry_of(item.path@)->0;
        assert(entry.path == item.path@);
        lemma_paths(once, item.path@);
        lemma_paths(c, item.path@);
        if indexed_as(enable, exclude, known, item) is None {
            assert(known.contains(item.path@));
            assert(c.has_path(item.path@));
            assert(once.has_path(item.path@));
        }
    }
    lemma_ran_exhausted(once, enable, exclude, again, tree, second, reports);
}

/// Where the first run had a song id left for each file, no file of the
/// tree reaches the writer in a second run: each path that the walker hands
/// on is known or excluded and is dropped by the filter, so that nothing is
/// read, no insert is tried and nothing is reported.
pub proof fn lemma_second_run_idle(
    c: Catalog,
    enable: bool,
    exclude: Seq<Seq<char>>,
    tree: Seq<Scanned>,
    first: Seq<u32>,
    second: Seq<u32>,
)
    requires
        first.len() == tree.len(),
        second.len() == tree.len(),
        c.next_song_id() + tree.len() <= i32::MAX + 1,
    ensures
        ({
            let once = ran(c, enable, exclude, paths_of(c.songs), tree, first);
            &&& forall|i: int|
                0 <= i < tree.len() ==> indexed_as(
                    enable,
                    exclude,
                    paths_of(once.songs),
                    #[trigger] tree[i],
                ) is None
            &&& ran(once, enable, exclude, paths_of(once.songs), tree, second) == once
            &&& reports_fit(
                once,
                enable,
                exclude,
                paths_of(once.songs),
                tree,
                second,
                Seq::<Stored>::empty(),
            )
        }),
{
    let known = paths_of(c.songs);
    let once = ran(c, enable, exclude, known, tree, first);
    let again = paths_of(once.songs);
    lemma_ran_grows(c, enable, exclude, known, tree, first);
    assert forall|i: int| 0 <= i < tree.len() implies indexed_as(
        enable,
        exclude,
        again,
        #[trigger] tree[i],
    ) is None by {
        let item = tree[i];
        if indexed_as(enable, exclude, again, item) is Some {
            let entry = entry_of(item.path@)->0;
            assert(entry.path == item.path@);
            lemma_paths(once, item.path@);
            lemma_paths(c, item.path@);
            if indexed_as(enable, exclude, known, item) is Some {
                assert(once.has_path(item.path@));
            } else {
                assert(known.contains(item.path@));
                assert(c.has_path(item.path@));
                assert(once.has_path(item.path@));
            }
        }
    }
    lemma_ran_idle(once, enable, exclude, again, tree, second);
}

} // verus!
