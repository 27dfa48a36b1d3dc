//! The pipeline as a whole: what a run over a tree of files makes of a
//! catalog.

use crate::indexer::db::Catalog;
use crate::indexer::{
    entry_of, paths_of, plan, random_u32, reader_for, reported, store, stored, wanted, Entry,
    EntryRow, Extract, Id3Failure, Id3Tag, Indexer, IndexerResult, Reader, Reading, Stored,
};
use crate::indexer::ffprobe;
use crate::indexer::titles::{lemma_ran_titled, titled};
use crate::paths::guessed_mime;
use crate::text::views;
use crate::walk::{accepted, accepts};
use vstd::prelude::*;

verus! {

/// A file of the tree as the pipeline meets it: where it lies, whether it
/// is a regular file, and what each reader and the disk would say of it.
#[derive(Debug, PartialEq, Eq)]
pub struct Scanned {
    pub path: String,
    pub is_file: bool,
    /// What the ID3 reader finds in the file.
    pub id3: Result<Id3Tag, Id3Failure>,
    /// What the probe tool reports of the file.
    pub probe: Result<ffprobe::Metadata, ffprobe::Error>,
    pub size: Option<u32>,
    pub duration: Option<u64>,
}

/// What the reader that the name of the file calls for finds in it.
pub open spec fn reading_of(item: Scanned) -> Reading {
    match reader_for(guessed_mime(item.path@)) {
        Reader::Id3 => Reading::Id3(item.id3),
        Reader::Ffprobe => Reading::Ffprobe(item.probe),
    }
}

/// What the extractor makes of a file.
pub open spec fn extract_of(item: Scanned, entry: EntryRow) -> Extract {
    Extract {
        entry,
        tag: reading_of(item).spec_tag(),
        mime_type: guessed_mime(item.path@),
        size: item.size,
        duration: item.duration,
    }
}

/// The entry under which a file reaches the writer: the walker hands its
/// path on, indexing is switched on, and the filter keeps it.
pub open spec fn indexed_as(
    enable: bool,
    exclude: Seq<Seq<char>>,
    known: Seq<Seq<char>>,
    item: Scanned,
) -> Option<EntryRow> {
    if enable && accepted(item.path@, item.is_file) {
        match entry_of(item.path@) {
            Some(entry) => if wanted(known, exclude, entry) {
                Some(entry)
            } else {
                None
            },
            None => None,
        }
    } else {
        None
    }
}

/// The catalog after a run over `tree`, with `known` for the paths that
/// were indexed when the run began and `dice` for the random numbers, one
/// for each file.
pub open spec fn ran(
    c: Catalog,
    enable: bool,
    exclude: Seq<Seq<char>>,
    known: Seq<Seq<char>>,
    tree: Seq<Scanned>,
    dice: Seq<u32>,
) -> Catalog
    decreases tree.len(),
{
    if tree.len() == 0 {
        c
    } else {
        let before = ran(c, enable, exclude, known, tree.drop_last(), dice);
        match indexed_as(enable, exclude, known, tree.last()) {
            Some(entry) => stored(before, extract_of(tree.last(), entry), dice[tree.len() - 1]),
            None => before,
        }
    }
}

/// The reports of a run: one for each file that reached the writer, in
/// the order of the tree, each saying what became of its file.
pub open spec fn reports_fit(
    c: Catalog,
    enable: bool,
    exclude: Seq<Seq<char>>,
    known: Seq<Seq<char>>,
    tree: Seq<Scanned>,
    dice: Seq<u32>,
    reports: Seq<Stored>,
) -> bool
    decreases tree.len(),
{
    if tree.len() == 0 {
        reports.len() == 0
    } else {
        let before = ran(c, enable, exclude, known, tree.drop_last(), dice);
        match indexed_as(enable, exclude, known, tree.last()) {
            Some(entry) => {
                &&& reports.len() > 0
                &&& reported(
                    before,
                    extract_of(tree.last(), entry),
                    dice[tree.len() - 1],
                    reports.last(),
                )
                &&& reports_fit(
                    c,
                    enable,
                    exclude,
                    known,
                    tree.drop_last(),
                    dice,
                    reports.drop_last(),
                )
            },
            None => reports_fit(c, enable, exclude, known, tree.drop_last(), dice, reports),
        }
    }
}

/// The catalog `after` and the reports are what some random numbers make
/// of a run over `tree` that begins with the catalog `before`.
pub open spec fn ran_from(
    before: Catalog,
    enable: bool,
    exclude: Seq<Seq<char>>,
    tree: Seq<Scanned>,
    after: Catalog,
    reports: Seq<Stored>,
) -> bool {
    exists|dice: Seq<u32>|
        {
            &&& dice.len() == tree.len()
            &&& after == #[trigger] ran(
                before,
                enable,
                exclude,
                paths_of(before.songs),
                tree,
                dice,
            )
            &&& reports_fit(
                before,
                enable,
                exclude,
                paths_of(before.songs),
                tree,
                dice,
                reports,
            )
        }
}

/// A run depends on the random numbers of the files that it was given and
/// on no others.
proof fn lemma_ran_prefix(
    c: Catalog,
    enable: bool,
    exclude: Seq<Seq<char>>,
    known: Seq<Seq<char>>,
    tree: Seq<Scanned>,
    dice: Seq<u32>,
    more: Seq<u32>,
    reports: Seq<Stored>,
)
    requires
        dice.len() >= tree.len(),
        more.len() >= tree.len(),
        forall|i: int| 0 <= i < tree.len() ==> dice[i] == more[i],
    ensures
        ran(c, enable, exclude, known, tree, dice) == ran(c, enable, exclude, known, tree, more),
        reports_fit(c, enable, exclude, known, tree, dice, reports) == reports_fit(
            c,
            enable,
            exclude,
            known,
            tree,
            more,
            reports,
        ),
    decreases tree.len(),
{
    if tree.len() > 0 {
        lemma_ran_prefix(c, enable, exclude, known, tree.drop_last(), dice, more, reports);
        lemma_ran_prefix(
            c,
            enable,
            exclude,
            known,
            tree.drop_last(),
            dice,
            more,
            reports.drop_last(),
        );
    }
}

/// A file leaves the catalog as it is where it is no regular file, where
/// its extension is not that of music in whatever letter case, where the
/// name of the file is excluded, where its path is known, or where indexing
/// is switched off.
pub proof fn lemma_passed_over(
    c: Catalog,
    enable: bool,
    exclude: Seq<Seq<char>>,
    known: Seq<Seq<char>>,
    tree: Seq<Scanned>,
    item: Scanned,
    dice: Seq<u32>,
)
    requires
        ({
            ||| !enable
            ||| !item.is_file
            ||| !crate::paths::is_media_path(item.path@)
            ||| known.contains(item.path@)
            ||| entry_of(item.path@) matches Some(entry) && exclude.contains(entry.file_name)
        }),
    ensures
        indexed_as(enable, exclude, known, item) is None,
        ran(c, enable, exclude, known, tree.push(item), dice) == ran(
            c,
            enable,
            exclude,
            known,
            tree,
            dice,
        ),
{
    assert(tree.push(item).drop_last() =~= tree);
}

impl Indexer {
    /// Runs the pipeline over a tree: each file that the walker hands on
    /// and the filter keeps is read by the reader that its name calls for
    /// and written to the catalog. Returns what became of each such file.
    /// Where every song of the catalog has a title, every song has one
    /// afterwards, whatever the tags of the files carry.
    pub fn run(&mut self, tree: Vec<Scanned>) -> (r: Vec<Stored>)
        ensures
            ran_from(
                old(self).catalog(),
                old(self).enabled(),
                old(self).excluded(),
                tree@,
                final(self).catalog(),
                r@,
            ),
            final(self).catalog().wf(),
            titled(old(self).catalog().songs) ==> titled(final(self).catalog().songs),
            final(self).roots() == old(self).roots(),
            final(self).enabled() == old(self).enabled(),
            final(self).excluded() == old(self).excluded(),
    {
        let known = self.known();
        let ghost start = self.catalog();
        let ghost enable = self.enabled();
        let ghost exclude = self.excluded();
        let ghost known_paths = paths_of(start.songs);
        let ghost mut dice: Seq<u32> = Seq::empty();
        let mut out: Vec<Stored> = Vec::new();
        let ghost whole = tree@;
        for item in it: tree
            invariant
                it.seq() == whole,
                views(known@) == known_paths,
                dice.len() == it.index(),
                self.enabled() == enable,
                self.excluded() == exclude,
                self.roots() == old(self).roots(),
                self.catalog().wf(),
                self.catalog() == ran(
                    start,
                    enable,
                    exclude,
                    known_paths,
                    whole.take(it.index()),
                    dice,
                ),
                reports_fit(
                    start,
                    enable,
                    exclude,
                    known_paths,
                    whole.take(it.index()),
                    dice,
                    out@,
                ),
        {
            let ghost done = whole.take(it.index());
            let ghost next = whole.take(it.index() + 1);
            let ghost old_dice = dice;
            let ghost old_out = out@;
            let mut drawn: u32 = 0;
            assert(next.drop_last() =~= done);
            assert(next.last() == item);
            if accepts(item.path.as_str(), item.is_file) {
                match Entry::new(item.path.clone()) {
                    Some(entry) => {
                        if self.wants(&known, &entry) {
                            let (mime, reader) = plan(entry.path());
                            let reading = match reader {
                                Reader::Id3 => Reading::Id3(item.id3),
                                Reader::Ffprobe => Reading::Ffprobe(item.probe),
                            };
                            let result = IndexerResult::new(
                                entry,
                                mime,
                                reading,
                                item.size,
                                item.duration,
                            );
                            drawn = random_u32();
                            let report = store(&mut self.db, &result, drawn);
                            out.push(report);
                            assert(out@.drop_last() =~= old_out);
                        }
                    },
                    None => {},
                }
            }
            proof {
                dice = old_dice.push(drawn);
                lemma_ran_prefix(
                    start,
                    enable,
                    exclude,
                    known_paths,
                    done,
                    old_dice,
                    dice,
                    old_out,
                );
            }
        }
        proof {
            assert(whole.take(whole.len() as int) =~= whole);
            if titled(start.songs) {
                lemma_ran_titled(start, enable, exclude, known_paths, whole, dice);
            }
        }
        out
    }
}

} // verus!
