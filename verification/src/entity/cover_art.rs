//! The cover-art table, and where a cover's bytes lie on disk.

use crate::paths::{join_all, join_each};
use crate::text::{decimal, i32_to_string, views};
use vstd::prelude::*;

verus! {

/// The number of shards that the covers are spread over.
pub const SHARDS: i32 = 512;

/// One cover of the catalog.
#[derive(Debug, PartialEq, Eq)]
pub struct Model {
    pub id: i32,
    pub shard: i32,
    pub mime_type: String,
    pub song: i32,
}

/// What a cover row holds.
pub struct Row {
    pub id: i32,
    pub shard: i32,
    pub mime_type: Seq<char>,
    pub song: i32,
}

impl View for Model {
    type V = Row;

    open spec fn view(&self) -> Row {
        Row { id: self.id, shard: self.shard, mime_type: self.mime_type@, song: self.song }
    }
}

impl Clone for Model {
    fn clone(&self) -> (r: Self)
        ensures
            r == *self,
    {
        Model {
            id: self.id,
            shard: self.shard,
            mime_type: self.mime_type.clone(),
            song: self.song,
        }
    }
}

/// Where the bytes of cover `id` of shard `shard` lie below `root`: at
/// `data`, `artwork`, the shard and the id, adjoined to `root` in turn.
pub open spec fn blob_path(id: i32, shard: i32, root: Seq<char>) -> Seq<char> {
    join_all(root, seq!["data"@, "artwork"@, decimal(shard as int), decimal(id as int)])
}

impl Model {
    pub(crate) fn path_inner(id: i32, shard: i32, root: &str) -> (r: String)
        ensures
            r@ == blob_path(id, shard, root@),
    {
        let mut parts: Vec<String> = Vec::new();
        parts.push(String::from_str("data"));
        parts.push(String::from_str("artwork"));
        parts.push(i32_to_string(shard));
        parts.push(i32_to_string(id));
        assert(views(parts@) =~= seq![
            "data"@,
            "artwork"@,
            decimal(shard as int),
            decimal(id as int),
        ]);
        join_each(root, &parts)
    }

    /// Where this cover's bytes lie below `root`.
    pub fn path(&self, root: &str) -> (r: String)
        ensures
            r@ == blob_path(self.id, self.shard, root@),
    {
        Self::path_inner(self.id, self.shard, root)
    }
}

/// What a cover is related to.
#[derive(Clone, Copy, Debug, PartialEq, Eq, Structural)]
pub enum Relation {
    Song,
}

} // verus!
