//! The walk through a directory of music: what it yields, which paths it
//! hands on, and how it counts.

use crate::paths::{is_media, is_media_path};
use vstd::prelude::*;

verus! {

/// What the walk of a directory yields for one entry.
#[derive(Debug, PartialEq, Eq)]
pub enum Walked {
    /// The entry could not be read.
    Failed,
    /// The path of the entry is not UTF-8.
    NonUtf8,
    /// An entry, and whether it is a regular file.
    Found { path: String, is_file: bool },
}

/// Whoever takes the paths that a walk hands on.
pub trait FileVisitor: Sized {
    /// The paths taken so far, in order.
    spec fn visited(&self) -> Seq<Seq<char>>;

    /// Takes one path.
    fn visit(&mut self, entry: &str)
        ensures
            final(self).visited() == old(self).visited().push(entry@),
    ;
}

/// The walker hands on a path: it is a regular file with the extension of
/// music.
pub open spec fn accepted(path: Seq<char>, is_file: bool) -> bool {
    is_file && is_media_path(path)
}

/// Whether the walker hands on `path`.
pub fn accepts(path: &str, is_file: bool) -> (r: bool)
    ensures
        r == accepted(path@, is_file),
{
    is_file && is_media(path)
}

/// The paths that a walk hands on, in order: those of the regular files
/// with the extension of music. An entry whose path is not UTF-8 is passed
/// over; at an entry that cannot be read the walk ends.
pub open spec fn emitted(walk: Seq<Walked>) -> Seq<Seq<char>>
    decreases walk.len(),
{
    if walk.len() == 0 {
        Seq::empty()
    } else {
        match walk[0] {
            Walked::Failed => Seq::empty(),
            Walked::NonUtf8 => emitted(walk.drop_first()),
            Walked::Found { path, is_file } => if accepted(path@, is_file) {
                seq![path@] + emitted(walk.drop_first())
            } else {
                emitted(walk.drop_first())
            },
        }
    }
}

/// How far a walk moves the counter: by one for each entry that it reads,
/// and by one more for each path that it hands on.
pub open spec fn counted(walk: Seq<Walked>) -> nat
    decreases walk.len(),
{
    if walk.len() == 0 {
        0
    } else {
        match walk[0] {
            Walked::Failed => 0,
            Walked::NonUtf8 => counted(walk.drop_first()),
            Walked::Found { path, is_file } => if accepted(path@, is_file) {
                2 + counted(walk.drop_first())
            } else {
                1 + counted(walk.drop_first())
            },
        }
    }
}

/// The counter after one more step; after the last number it starts again
/// at zero.
pub open spec fn next_count(count: u32) -> u32 {
    if count == u32::MAX {
        0
    } else {
        (count + 1) as u32
    }
}

/// The counter after `steps` more steps.
pub open spec fn advanced(count: u32, steps: nat) -> u32
    decreases steps,
{
    if steps == 0 {
        count
    } else {
        advanced(next_count(count), (steps - 1) as nat)
    }
}

fn bump(count: &mut u32)
    ensures
        *final(count) == next_count(*old(count)),
{
    if *count == u32::MAX {
        *count = 0;
    } else {
        *count = *count + 1;
    }
}

/// Goes through what the walk of one directory yielded: hands the paths of
/// the music files to `action`, and counts.
pub fn load<V: FileVisitor>(walk: &Vec<Walked>, action: &mut V, count: &mut u32)
    ensures
        final(action).visited() == old(action).visited() + emitted(walk@),
        *final(count) == advanced(*old(count), counted(walk@)),
{
    let mut i: usize = 0;
    assert(walk@.skip(0) =~= walk@);
    assert(action.visited() + emitted(walk@) =~= old(action).visited() + emitted(walk@));
    while i < walk.len()
        invariant
            i <= walk.len(),
            action.visited() + emitted(walk@.skip(i as int)) == old(action).visited() + emitted(
                walk@,
            ),
            advanced(*count, counted(walk@.skip(i as int))) == advanced(
                *old(count),
                counted(walk@),
            ),
        decreases walk.len() - i,
    {
        let ghost rest = walk@.skip(i as int);
        let ghost seen = action.visited();
        assert(rest.drop_first() =~= walk@.skip(i + 1));
        assert(rest[0] == walk@[i as int]);
        match &walk[i] {
            Walked::Failed => {
                assert(seen + emitted(rest) =~= seen);
                return ;
            },
            Walked::NonUtf8 => {},
            Walked::Found { path, is_file } => {
                bump(count);
                if accepts(path.as_str(), *is_file) {
                    bump(count);
                    action.visit(path.as_str());
                    assert(seen.push(path@) + emitted(walk@.skip(i + 1)) =~= seen + (seq![path@]
                        + emitted(walk@.skip(i + 1))));
                    assert(advanced(*count, counted(walk@.skip(i + 1))) == advanced(
                        *old(count),
                        counted(walk@),
                    )) by {
                        reveal_with_fuel(advanced, 3);
                    }
                }
            },
        }
        i = i + 1;
    }
    assert(action.visited() + emitted(walk@.skip(i as int)) =~= action.visited());
}

} // verus!
