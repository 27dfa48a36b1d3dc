//! Every song that the indexer writes has a title: a file whose tag has
//! none, or an empty one, goes by its name.

use crate::entity::song;
use crate::indexer::db::Catalog;
use crate::indexer::pipeline::{extract_of, indexed_as, ran, Scanned};
use crate::indexer::{entry_of, stored, Extract};
use vstd::prelude::*;

verus! {

/// Every row has a title that is not empty.
pub open spec fn titled(songs: Seq<song::Row>) -> bool {
    forall|i: int| 0 <= i < songs.len() ==> (#[trigger] songs[i]).title.len() > 0
}

/// The title of a result is not empty where the file has a name: the title
/// of the tag where that is not empty, and the name of the file where there
/// is no tag, or the tag has no title or an empty one.
pub proof fn lemma_title_not_empty(result: Extract)
    requires
        result.entry.file_name.len() > 0,
    ensures
        result.title().len() > 0,
        result.tag is None ==> result.title() == result.entry.file_name,
        result.tag is Some && result.tag->0.spec_title() is None ==> result.title()
            == result.entry.file_name,
        result.tag is Some && result.tag->0.spec_title() == Some(Seq::<char>::empty())
            ==> result.title() == result.entry.file_name,
        ({
            &&& result.tag is Some
            &&& result.tag->0.spec_title() is Some
            &&& result.tag->0.spec_title()->0.len() > 0
        }) ==> result.title() == result.tag->0.spec_title()->0,
{
}

/// Writing the result for a file that has a name to a catalog whose songs
/// all have titles leaves such a catalog.
pub proof fn lemma_stored_titled(c: Catalog, result: Extract, dice: u32)
    requires
        titled(c.songs),
        result.entry.file_name.len() > 0,
    ensures
        titled(stored(c, result, dice).songs),
{
    let after = stored(c, result, dice).songs;
    lemma_title_not_empty(result);
    assert forall|i: int| 0 <= i < after.len() implies (#[trigger] after[i]).title.len() > 0 by {
        if i < c.songs.len() {
            assert(after[i] == c.songs[i]);
        }
    }
}

/// A run from a catalog whose songs all have titles leaves such a catalog,
/// whatever the tags of the files carry.
pub proof fn lemma_ran_titled(
    c: Catalog,
    enable: bool,
    exclude: Seq<Seq<char>>,
    known: Seq<Seq<char>>,
    tree: Seq<Scanned>,
    dice: Seq<u32>,
)
    requires
        titled(c.songs),
    ensures
        titled(ran(c, enable, exclude, known, tree, dice).songs),
    decreases tree.len(),
{
    if tree.len() > 0 {
        let front = tree.drop_last();
        lemma_ran_titled(c, enable, exclude, known, front, dice);
        let before = ran(c, enable, exclude, known, front, dice);
        let last = tree[tree.len() - 1];
        match indexed_as(enable, exclude, known, last) {
            Some(entry) => {
                assert(entry_of(last.path@) == Some(entry));
                lemma_stored_titled(before, extract_of(last, entry), dice[tree.len() - 1]);
            },
            None => {},
        }
    }
}

} // verus!
