//! The tags that the probe tool reports for a file.

use crate::text::{clone_opt, lowercase, lowercased, opt_view, same};
use vstd::prelude::*;

verus! {

/// What the probe tool reports for a file.
#[derive(Debug, PartialEq, Eq)]
pub struct Metadata {
    pub format: Tags,
}

impl Metadata {
    /// The tags of the report.
    pub fn into_tag(self) -> (r: Tag)
        ensures
            r == self.format.tags,
    {
        self.format.tags
    }
}

/// The `format` section of a report.
#[derive(Debug, PartialEq, Eq)]
pub struct Tags {
    pub tags: Tag,
}

/// The tags of a report. The track is kept as text: it may read `01` or
/// `2/14`.
#[derive(Debug, PartialEq, Eq)]
pub struct Tag {
    pub title: String,
    pub artist: Option<String>,
    pub album: Option<String>,
    pub genre: Option<String>,
    pub track: Option<String>,
}

impl Clone for Tag {
    fn clone(&self) -> (r: Self)
        ensures
            r == *self,
    {
        Tag {
            title: self.title.clone(),
            artist: clone_opt(&self.artist),
            album: clone_opt(&self.album),
            genre: clone_opt(&self.genre),
            track: clone_opt(&self.track),
        }
    }
}

/// The value of one entry of a report.
#[derive(Debug, PartialEq, Eq)]
pub enum Value {
    /// An explicit null.
    Null,
    /// A text.
    Text(String),
    /// Anything else: a number, a list, a section.
    Other,
}

/// Why a report gives no tags.
#[derive(Clone, Copy, Debug, PartialEq, Eq, Structural)]
pub enum Error {
    /// The report could not be had from the tool.
    Io,
    /// The report has no text under `title`, or something other than a
    /// text or a null under one of the other names.
    Deser,
}

/// What an entry means for a slot: nothing, a text, or a fault.
pub enum Slot {
    Absent,
    Text(Seq<char>),
    Faulty,
}

/// The slot `name` after the entries `pairs`: each entry whose key reads
/// `name` in lower case sets the slot, and the last one stands.
pub open spec fn slot(pairs: Seq<(String, Value)>, name: Seq<char>) -> Slot
    decreases pairs.len(),
{
    if pairs.len() == 0 {
        Slot::Absent
    } else if lowercased(pairs.last().0@) == name {
        match pairs.last().1 {
            Value::Null => Slot::Absent,
            Value::Text(t) => Slot::Text(t@),
            Value::Other => Slot::Faulty,
        }
    } else {
        slot(pairs.drop_last(), name)
    }
}

/// The text of an optional slot.
pub open spec fn optional(s: Slot) -> Option<Seq<char>> {
    match s {
        Slot::Text(t) => Some(t),
        _ => None,
    }
}

/// The entries give tags: a text under `title`, and under each other name
/// nothing, a null or a text.
pub open spec fn well_formed(pairs: Seq<(String, Value)>) -> bool {
    &&& slot(pairs, "title"@) is Text
    &&& !(slot(pairs, "artist"@) is Faulty)
    &&& !(slot(pairs, "album"@) is Faulty)
    &&& !(slot(pairs, "genre"@) is Faulty)
    &&& !(slot(pairs, "track"@) is Faulty)
}

enum Found {
    Absent,
    Text(String),
    Faulty,
}

fn find(pairs: &Vec<(String, Value)>, name: &str) -> (r: Found)
    ensures
        match r {
            Found::Absent => slot(pairs@, name@) is Absent,
            Found::Text(t) => slot(pairs@, name@) == Slot::Text(t@),
            Found::Faulty => slot(pairs@, name@) is Faulty,
        },
{
    let mut i: usize = pairs.len();
    assert(pairs@.take(i as int) =~= pairs@);
    while i > 0
        invariant
            i <= pairs.len(),
            slot(pairs@, name@) == slot(pairs@.take(i as int), name@),
        decreases i,
    {
        assert(pairs@.take(i as int).drop_last() =~= pairs@.take(i - 1));
        assert(pairs@.take(i as int).last() == pairs@[i - 1]);
        if same(lowercase(pairs[i - 1].0.as_str()).as_str(), name) {
            return match &pairs[i - 1].1 {
                Value::Null => Found::Absent,
                Value::Text(t) => Found::Text(t.clone()),
                Value::Other => Found::Faulty,
            };
        }
        i = i - 1;
    }
    Found::Absent
}

impl Tag {
    /// The tags that the entries of a report give. Keys are read in lower
    /// case, so `TITLE` and `Title` fill the same slot as `title`; names
    /// other than the five are passed over.
    pub fn from_pairs(pairs: &Vec<(String, Value)>) -> (r: Result<Tag, Error>)
        ensures
            match r {
                Ok(tag) => {
                    &&& well_formed(pairs@)
                    &&& Some(tag.title@) == optional(slot(pairs@, "title"@))
                    &&& opt_view(tag.artist) == optional(slot(pairs@, "artist"@))
                    &&& opt_view(tag.album) == optional(slot(pairs@, "album"@))
                    &&& opt_view(tag.genre) == optional(slot(pairs@, "genre"@))
                    &&& opt_view(tag.track) == optional(slot(pairs@, "track"@))
                },
                Err(e) => e == Error::Deser && !well_formed(pairs@),
            },
    {
        let title = match find(pairs, "title") {
            Found::Text(t) => t,
            _ => {
                return Err(Error::Deser);
            },
        };
        let artist = match find(pairs, "artist") {
            Found::Text(t) => Some(t),
            Found::Absent => None,
            Found::Faulty => {
                return Err(Error::Deser);
            },
        };
        let album = match find(pairs, "album") {
            Found::Text(t) => Some(t),
            Found::Absent => None,
            Found::Faulty => {
                return Err(Error::Deser);
            },
        };
        let genre = match find(pairs, "genre") {
            Found::Text(t) => Some(t),
            Found::Absent => None,
            Found::Faulty => {
                return Err(Error::Deser);
            },
        };
        let track = match find(pairs, "track") {
            Found::Text(t) => Some(t),
            Found::Absent => None,
            Found::Faulty => {
                return Err(Error::Deser);
            },
        };
        Ok(Tag { title, artist, album, genre, track })
    }
}

} // verus!
