//! The list of what the player plays, and what it knows of each entry.

use crate::indexer::Id3Tag;
use crate::text::same;
use vstd::prelude::*;

verus! {

/// Whoever can say what a track is.
pub trait MetadataProvider {
    spec fn spec_artist(&self) -> Seq<char>;

    spec fn spec_title(&self) -> Seq<char>;

    spec fn spec_length(&self) -> u64;

    fn artist(&self) -> (r: &str)
        ensures
            r@ == self.spec_artist(),
    ;

    fn title(&self) -> (r: &str)
        ensures
            r@ == self.spec_title(),
    ;

    /// Artist and title with a dash between them.
    fn info(&self) -> (r: String)
        ensures
            r@ == self.spec_artist() + " - "@ + self.spec_title(),
    ;

    /// The length of the track in seconds.
    fn length(&self) -> (r: u64)
        ensures
            r == self.spec_length(),
    ;
}

/// A tag says what it carries; what it does not carry is empty, or zero.
impl MetadataProvider for Id3Tag {
    open spec fn spec_artist(&self) -> Seq<char> {
        match self.artist {
            Some(artist) => artist@,
            None => Seq::empty(),
        }
    }

    open spec fn spec_title(&self) -> Seq<char> {
        match self.title {
            Some(title) => title@,
            None => Seq::empty(),
        }
    }

    open spec fn spec_length(&self) -> u64 {
        match self.duration {
            Some(secs) => secs as u64,
            None => 0,
        }
    }

    fn artist(&self) -> (r: &str) {
        match &self.artist {
            Some(artist) => artist.as_str(),
            None => {
                proof {
                    reveal_strlit("");
                }
                assert(""@ =~= Seq::<char>::empty());
                ""
            },
        }
    }

    fn title(&self) -> (r: &str) {
        match &self.title {
            Some(title) => title.as_str(),
            None => {
                proof {
                    reveal_strlit("");
                }
                assert(""@ =~= Seq::<char>::empty());
                ""
            },
        }
    }

    fn info(&self) -> (r: String) {
        let mut out = String::from_str(self.artist());
        out.append(" - ");
        out.append(self.title());
        out
    }

    fn length(&self) -> (r: u64) {
        match self.duration {
            Some(secs) => secs as u64,
            None => 0,
        }
    }
}

/// What the player plays: the names of the entries in the order in which
/// they came, what is known of each name, and the place of the entry that
/// plays.
pub struct Player<M> {
    metadata: Vec<(String, M)>,
    entries: Vec<String>,
    idx: usize,
}

/// What was last noted under `name`.
pub open spec fn noted<M>(metadata: Seq<(String, M)>, name: Seq<char>) -> Option<M>
    decreases metadata.len(),
{
    if metadata.len() == 0 {
        None
    } else if metadata.last().0@ == name {
        Some(metadata.last().1)
    } else {
        noted(metadata.drop_last(), name)
    }
}

impl<M> Player<M> {
    /// The names of the entries, in the order in which they came.
    pub closed spec fn entries(&self) -> Seq<String> {
        self.entries@
    }

    /// What was noted of each name, in the order in which it came.
    pub closed spec fn notes(&self) -> Seq<(String, M)> {
        self.metadata@
    }

    /// The place of the entry that plays.
    pub closed spec fn spec_index(&self) -> usize {
        self.idx
    }

    /// The place of the entry that plays.
    pub fn index(&self) -> (r: usize)
        ensures
            r == self.spec_index(),
    {
        self.idx
    }

    /// A player with nothing to play.
    pub fn new() -> (r: Self)
        ensures
            r.entries() == Seq::<String>::empty(),
            r.notes() == Seq::<(String, M)>::empty(),
            r.spec_index() == 0,
    {
        Player { metadata: Vec::new(), entries: Vec::new(), idx: 0 }
    }

    /// What is known of the entry that plays; none where the list has run
    /// out.
    pub fn cur(&self) -> (r: Option<&M>)
        ensures
            match r {
                Some(m) => self.spec_index() < self.entries().len() && noted(
                    self.notes(),
                    self.entries()[self.spec_index() as int]@,
                ) == Some(*m),
                None => self.spec_index() >= self.entries().len() || noted(
                    self.notes(),
                    self.entries()[self.spec_index() as int]@,
                ) is None,
            },
    {
        if self.idx >= self.entries.len() {
            return None;
        }
        let name = self.entries[self.idx].as_str();
        let mut i: usize = self.metadata.len();
        assert(self.metadata@.take(i as int) =~= self.metadata@);
        while i > 0
            invariant
                i <= self.metadata.len(),
                self.idx < self.entries.len(),
                name@ == self.entries@[self.idx as int]@,
                noted(self.metadata@, name@) == noted(self.metadata@.take(i as int), name@),
            decreases i,
        {
            assert(self.metadata@.take(i as int).drop_last() =~= self.metadata@.take(i - 1));
            assert(self.metadata@.take(i as int).last() == self.metadata@[i - 1]);
            if same(self.metadata[i - 1].0.as_str(), name) {
                return Some(&self.metadata[i - 1].1);
            }
            i = i - 1;
        }
        None
    }

    /// Puts an entry at the end of the list, and notes what is known of
    /// it under its name.
    pub fn append(&mut self, name: String, known: M)
        ensures
            final(self).entries() == old(self).entries().push(name),
            final(self).notes() == old(self).notes().push((name, known)),
            final(self).spec_index() == old(self).spec_index(),
    {
        self.metadata.push((name.clone(), known));
        self.entries.push(name);
    }

    /// Moves on to the next entry, once the one that plays has ended.
    pub fn advance(&mut self)
        requires
            old(self).spec_index() < usize::MAX,
        ensures
            final(self).entries() == old(self).entries(),
            final(self).notes() == old(self).notes(),
            final(self).spec_index() == old(self).spec_index() + 1,
    {
        self.idx = self.idx + 1;
    }
}

} // verus!
