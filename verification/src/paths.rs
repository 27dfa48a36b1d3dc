//! What a path says of the file it names: its last component, its
//! extension, and the media type that the extension suggests.

use crate::text::{lowercase, lowercased, opt_view, same, views};
use vstd::prelude::*;

verus! {

/// The last component of `path` as `camino` reads it; none where the path
/// ends in `..` or names a root.
pub uninterp spec fn file_name_of(path: Seq<char>) -> Option<Seq<char>>;

/// The extension of `path` as `camino` reads it: what follows the last dot
/// of the file name, where the name has a dot that is not its first
/// character.
pub uninterp spec fn extension_of(path: Seq<char>) -> Option<Seq<char>>;

/// The media type that `mime_guess` lists first for the extension of
/// `path`, as the parsed type writes itself; none where the path has no
/// extension or the extension is not in its table.
pub uninterp spec fn guessed_mime(path: Seq<char>) -> Option<Seq<char>>;

/// `part` adjoined to `base` as `camino` adjoins paths: behind a separator
/// where `part` is relative, and in place of `base` where it is absolute.
pub uninterp spec fn joined(base: Seq<char>, part: Seq<char>) -> Seq<char>;

/// Whether `camino` takes two paths for equal: component by component.
pub uninterp spec fn paths_agree(a: Seq<char>, b: Seq<char>) -> bool;

/// Calls `camino::Utf8Path::join`. The contract gives the result its name
/// and claims nothing else of it.
#[verifier::external_body]
pub(crate) fn join(base: &str, part: &str) -> (r: String)
    ensures
        r@ == joined(base@, part@),
{
    camino::Utf8Path::new(base).join(part).into_string()
}

/// Compares two paths with the `==` of `camino::Utf8Path`. The contract
/// gives the result its name and claims nothing else of it.
#[verifier::external_body]
pub(crate) fn same_path(a: &str, b: &str) -> (r: bool)
    ensures
        r == paths_agree(a@, b@),
{
    camino::Utf8Path::new(a) == camino::Utf8Path::new(b)
}

/// Calls `camino::Utf8Path::file_name`. The contract gives the result its
/// name and claims nothing else of it.
#[verifier::external_body]
pub(crate) fn file_name(path: &str) -> (r: Option<String>)
    ensures
        opt_view(r) == file_name_of(path@),
{
    camino::Utf8Path::new(path).file_name().map(|name| name.to_string())
}

/// Calls `camino::Utf8Path::extension`. The contract gives the result its
/// name and claims nothing else of it.
#[verifier::external_body]
pub(crate) fn extension(path: &str) -> (r: Option<String>)
    ensures
        opt_view(r) == extension_of(path@),
{
    camino::Utf8Path::new(path).extension().map(|ext| ext.to_string())
}

/// Calls `mime_guess::from_path` and takes the first guess with
/// `MimeGuess::first`, written out as text. The contract gives the result
/// its name and claims nothing else of it. `first` parses an entry of the
/// table that `mime_guess` ships; every entry of that table parses.
#[verifier::external_body]
pub(crate) fn guess_mime(path: &str) -> (r: Option<String>)
    ensures
        opt_view(r) == guessed_mime(path@),
{
    mime_guess::from_path(path).first().map(|mime| mime.to_string())
}

/// The extension that marks a file as music.
pub const MEDIA_EXTENSION: &'static str = "mp3";

/// The media type of MPEG audio.
pub const AUDIO_MPEG: &'static str = "audio/mpeg";

/// The media type of a file of unknown kind.
pub const OCTET_STREAM: &'static str = "application/octet-stream";

/// The path has the extension of music, in whatever letter case.
pub open spec fn is_media_path(path: Seq<char>) -> bool {
    match extension_of(path) {
        Some(ext) => lowercased(ext) == MEDIA_EXTENSION@,
        None => false,
    }
}

/// Whether the path has the extension of music, in whatever letter case.
pub fn is_media(path: &str) -> (r: bool)
    ensures
        r == is_media_path(path@),
{
    match extension(path) {
        Some(ext) => same(lowercase(ext.as_str()).as_str(), MEDIA_EXTENSION),
        None => false,
    }
}

/// `base` with each of `parts` adjoined in turn.
pub open spec fn join_all(base: Seq<char>, parts: Seq<Seq<char>>) -> Seq<char>
    decreases parts.len(),
{
    if parts.len() == 0 {
        base
    } else {
        joined(join_all(base, parts.drop_last()), parts.last())
    }
}

/// Adjoins each of `parts` to `base` in turn.
pub fn join_each(base: &str, parts: &Vec<String>) -> (r: String)
    ensures
        r@ == join_all(base@, views(parts@)),
{
    let mut out = String::from_str(base);
    let mut i: usize = 0;
    assert(views(parts@).take(0) =~= Seq::<Seq<char>>::empty());
    while i < parts.len()
        invariant
            i <= parts.len(),
            out@ == join_all(base@, views(parts@).take(i as int)),
        decreases parts.len() - i,
    {
        assert(views(parts@).take(i + 1).drop_last() =~= views(parts@).take(i as int));
        out = join(out.as_str(), parts[i].as_str());
        i = i + 1;
    }
    assert(views(parts@).take(i as int) =~= views(parts@));
    out
}

/// The media type to serve a file under: the one that its extension
/// suggests, or that of a file of unknown kind.
pub open spec fn served_mime(path: Seq<char>) -> Seq<char> {
    match guessed_mime(path) {
        Some(mime) => mime,
        None => OCTET_STREAM@,
    }
}

/// The media type to serve `path` under.
pub fn mime_or_octet_stream(path: &str) -> (r: String)
    ensures
        r@ == served_mime(path@),
{
    match guess_mime(path) {
        Some(mime) => mime,
        None => String::from_str(OCTET_STREAM),
    }
}

} // verus!
