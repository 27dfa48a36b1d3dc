//! The options of the command line.

use vstd::prelude::*;

verus! {

/// What the command line sets.
#[derive(Debug, PartialEq, Eq)]
pub struct Args {
    /// Path to the music collection.
    pub media_path: String,
    /// Path that will contain the catalog.
    pub db_path: String,
    /// Whether the indexer skips files with metadata.
    pub skip_tagged: bool,
    /// Address to listen on.
    pub address: String,
}

/// The address to listen on where none is given.
pub const DEFAULT_ADDRESS: &'static str = "localhost:3000";

impl Args {
    /// The options for a collection and a catalog, the rest as it is when
    /// not given: tagged files are not skipped, and the server listens on
    /// the default address.
    pub fn new(media_path: String, db_path: String) -> (r: Args)
        ensures
            r.media_path == media_path,
            r.db_path == db_path,
            !r.skip_tagged,
            r.address@ == DEFAULT_ADDRESS@,
    {
        Args { media_path, db_path, skip_tagged: false, address: String::from_str(DEFAULT_ADDRESS) }
    }
}

} // verus!
