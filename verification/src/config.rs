//! The configuration of the server, as the sections of its file.

use crate::text::clone_opt;
use vstd::prelude::*;

verus! {

/// The whole configuration.
#[derive(Debug, PartialEq, Eq)]
pub struct Config {
    pub system: System,
    pub media: Media,
    pub indexer: Indexer,
}

/// Where the server keeps its data and where it listens.
#[derive(Debug, PartialEq, Eq)]
pub struct System {
    /// The directory of the catalog, the covers and the site.
    pub data_path: String,
    pub cache_mb: u16,
    /// Host and port to listen on.
    pub bind_addr: String,
    /// The path under which the site and the API are mounted.
    pub base_url: Option<String>,
    /// Lets any origin send requests.
    pub dev: bool,
}

/// The directories that hold the music.
#[derive(Debug, PartialEq, Eq)]
pub struct Media {
    pub paths: Vec<String>,
}

/// Whether the indexer writes to the catalog, and what it passes over.
#[derive(Debug, PartialEq, Eq)]
pub struct Indexer {
    pub enable: bool,
    pub exclude: Exclude,
}

/// The names of files and of directories that the indexer passes over.
#[derive(Debug, PartialEq, Eq)]
pub struct Exclude {
    pub files: Vec<String>,
    pub dirs: Vec<String>,
}

/// The file that holds the configuration where none is named.
pub const DEFAULT_CFG: &'static str = "udrome.toml";

fn clone_names(names: &Vec<String>) -> (r: Vec<String>)
    ensures
        r@ == names@,
{
    let mut out: Vec<String> = Vec::new();
    let mut i: usize = 0;
    while i < names.len()
        invariant
            i <= names.len(),
            out@ == names@.take(i as int),
        decreases names.len() - i,
    {
        out.push(names[i].clone());
        assert(out@ =~= names@.take(i + 1));
        i = i + 1;
    }
    assert(names@.take(i as int) =~= names@);
    out
}

impl Clone for Exclude {
    fn clone(&self) -> (r: Self)
        ensures
            r.files@ == self.files@,
            r.dirs@ == self.dirs@,
    {
        Exclude { files: clone_names(&self.files), dirs: clone_names(&self.dirs) }
    }
}

impl Clone for Indexer {
    fn clone(&self) -> (r: Self)
        ensures
            r.enable == self.enable,
            r.exclude.files@ == self.exclude.files@,
            r.exclude.dirs@ == self.exclude.dirs@,
    {
        Indexer { enable: self.enable, exclude: self.exclude.clone() }
    }
}

impl Config {
    /// The file to read the configuration from: the one that is named, or
    /// the default.
    pub fn file(path: Option<String>) -> (r: String)
        ensures
            r@ == match path {
                Some(p) => p@,
                None => DEFAULT_CFG@,
            },
    {
        match path {
            Some(p) => p,
            None => String::from_str(DEFAULT_CFG),
        }
    }
}

impl System {
    /// The path under which the site is mounted; empty where none is set.
    pub fn base_url(&self) -> (r: String)
        ensures
            r@ == match self.base_url {
                Some(b) => b@,
                None => Seq::<char>::empty(),
            },
    {
        match clone_opt(&self.base_url) {
            Some(b) => b,
            None => String::new(),
        }
    }
}

} // verus!
