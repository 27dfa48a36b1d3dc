//! The query engine: which rows a search matches, the order in which they
//! are listed, and how a listing is cut into pages.

use crate::entity::song;
use crate::indexer::types::{Album, AlbumRow, Artist, ArtistRow};
use crate::order::{ascending, has_key, insert_sorted, lemma_place_keeps, place, Keyed};
use crate::text::{clone_opt, contains_folded, contains_ignore_case, opt_view, views};
use vstd::prelude::*;

verus! {

/// Every word of `tokens` is a substring of `text`, letter case aside. A
/// word is taken character by character: none of its characters stands for
/// any other.
pub open spec fn all_in(text: Seq<char>, tokens: Seq<Seq<char>>) -> bool {
    forall|i: int| 0 <= i < tokens.len() ==> contains_folded(text, #[trigger] tokens[i])
}

/// The column holds a text, and every word of `tokens` is in it.
pub open spec fn opt_all_in(text: Option<Seq<char>>, tokens: Seq<Seq<char>>) -> bool {
    match text {
        Some(t) => all_in(t, tokens),
        None => false,
    }
}

/// A search without words matches every song; one with words matches the
/// songs whose title holds them all, or whose artist does, or whose album.
pub open spec fn song_matches(row: song::Row, tokens: Seq<Seq<char>>) -> bool {
    ||| tokens.len() == 0
    ||| all_in(row.title, tokens)
    ||| opt_all_in(row.artist, tokens)
    ||| opt_all_in(row.album, tokens)
}

/// The artists of `songs` whose names hold every word of `tokens`: each
/// name once, in ascending order.
pub open spec fn artists_of(songs: Seq<song::Row>, tokens: Seq<Seq<char>>) -> Seq<ArtistRow>
    decreases songs.len(),
{
    if songs.len() == 0 {
        Seq::empty()
    } else {
        let rest = artists_of(songs.drop_last(), tokens);
        match songs.last().artist {
            Some(name) => if all_in(name, tokens) {
                place::<Artist>(rest, ArtistRow { name })
            } else {
                rest
            },
            None => rest,
        }
    }
}

/// The albums of `songs` whose titles hold every word of `tokens`, each
/// with its artist: each pair once, in ascending order of the title, and
/// of the artist under one title.
pub open spec fn albums_of(songs: Seq<song::Row>, tokens: Seq<Seq<char>>) -> Seq<AlbumRow>
    decreases songs.len(),
{
    if songs.len() == 0 {
        Seq::empty()
    } else {
        let rest = albums_of(songs.drop_last(), tokens);
        match songs.last().album {
            Some(title) => if all_in(title, tokens) {
                place::<Album>(rest, AlbumRow { title, artist: songs.last().artist })
            } else {
                rest
            },
            None => rest,
        }
    }
}

/// The songs of `songs` that `tokens` match, in ascending order of the
/// title, and of the id under one title.
pub open spec fn songs_of(songs: Seq<song::Row>, tokens: Seq<Seq<char>>) -> Seq<song::Row>
    decreases songs.len(),
{
    if songs.len() == 0 {
        Seq::empty()
    } else {
        let rest = songs_of(songs.drop_last(), tokens);
        if song_matches(songs.last(), tokens) {
            place::<song::Model>(rest, songs.last())
        } else {
            rest
        }
    }
}

/// The page of `all` that starts after `offset` rows (after none where no
/// offset is given) and holds `limit` rows at most (all that are left
/// where no limit is given).
pub open spec fn page<A>(all: Seq<A>, limit: Option<u32>, offset: Option<u32>) -> Seq<A> {
    let skipped: int = match offset {
        Some(n) => if n <= all.len() {
            n as int
        } else {
            all.len() as int
        },
        None => 0,
    };
    let rest = all.skip(skipped);
    match limit {
        Some(n) => if n <= rest.len() {
            rest.take(n as int)
        } else {
            rest
        },
        None => rest,
    }
}

/// The page of a listing of artists or albums: without a limit the whole
/// listing, whatever the offset.
pub open spec fn window<A>(all: Seq<A>, limit: Option<u32>, offset: Option<u32>) -> Seq<A> {
    match limit {
        Some(_) => page(all, limit, offset),
        None => all,
    }
}

/// Whether every word of `tokens` is a substring of `text`, letter case
/// aside.
pub fn holds_all(text: &str, tokens: &Vec<String>) -> (r: bool)
    ensures
        r == all_in(text@, views(tokens@)),
{
    let mut i: usize = 0;
    while i < tokens.len()
        invariant
            i <= tokens.len(),
            forall|k: int| 0 <= k < i ==> contains_folded(text@, #[trigger] views(tokens@)[k]),
        decreases tokens.len() - i,
    {
        if !contains_ignore_case(text, tokens[i].as_str()) {
            assert(!contains_folded(text@, views(tokens@)[i as int]));
            return false;
        }
        i = i + 1;
    }
    true
}

fn opt_holds_all(text: &Option<String>, tokens: &Vec<String>) -> (r: bool)
    ensures
        r == opt_all_in(opt_view(*text), views(tokens@)),
{
    match text {
        Some(t) => holds_all(t.as_str(), tokens),
        None => false,
    }
}

/// Whether a search for `tokens` matches `song`.
pub fn matches_song(song: &song::Model, tokens: &Vec<String>) -> (r: bool)
    ensures
        r == song_matches(song@, views(tokens@)),
{
    tokens.len() == 0 || holds_all(song.title.as_str(), tokens) || opt_holds_all(
        &song.artist,
        tokens,
    ) || opt_holds_all(&song.album, tokens)
}

/// Lists the artists of `songs` whose names hold every word of `tokens`.
pub fn list_artists(songs: &Vec<song::Model>, tokens: &Vec<String>) -> (r: Vec<Artist>)
    ensures
        views(r@) == artists_of(views(songs@), views(tokens@)),
{
    let mut out: Vec<Artist> = Vec::new();
    let mut i: usize = 0;
    assert(views(songs@).take(0) =~= Seq::<song::Row>::empty());
    assert(views(out@) =~= Seq::<ArtistRow>::empty());
    while i < songs.len()
        invariant
            i <= songs.len(),
            views(out@) == artists_of(views(songs@).take(i as int), views(tokens@)),
            ascending::<Artist>(views(out@)),
        decreases songs.len() - i,
    {
        proof {
            assert(views(songs@).take(i + 1).drop_last() =~= views(songs@).take(i as int));
            assert(views(songs@).take(i + 1).last() == songs@[i as int]@);
        }
        match &songs[i].artist {
            Some(name) => {
                if holds_all(name.as_str(), tokens) {
                    insert_sorted(&mut out, Artist { name: name.clone() });
                }
            },
            None => {},
        }
        i = i + 1;
    }
    assert(views(songs@).take(i as int) =~= views(songs@));
    out
}

/// Lists the albums of `songs` whose titles hold every word of `tokens`.
pub fn list_albums(songs: &Vec<song::Model>, tokens: &Vec<String>) -> (r: Vec<Album>)
    ensures
        views(r@) == albums_of(views(songs@), views(tokens@)),
{
    let mut out: Vec<Album> = Vec::new();
    let mut i: usize = 0;
    assert(views(songs@).take(0) =~= Seq::<song::Row>::empty());
    assert(views(out@) =~= Seq::<AlbumRow>::empty());
    while i < songs.len()
        invariant
            i <= songs.len(),
            views(out@) == albums_of(views(songs@).take(i as int), views(tokens@)),
            ascending::<Album>(views(out@)),
        decreases songs.len() - i,
    {
        proof {
            assert(views(songs@).take(i + 1).drop_last() =~= views(songs@).take(i as int));
            assert(views(songs@).take(i + 1).last() == songs@[i as int]@);
        }
        match &songs[i].album {
            Some(title) => {
                if holds_all(title.as_str(), tokens) {
                    insert_sorted(
                        &mut out,
                        Album { title: title.clone(), artist: clone_opt(&songs[i].artist) },
                    );
                }
            },
            None => {},
        }
        i = i + 1;
    }
    assert(views(songs@).take(i as int) =~= views(songs@));
    out
}

/// Lists the songs of `songs` that a search for `tokens` matches.
pub fn list_songs(songs: &Vec<song::Model>, tokens: &Vec<String>) -> (r: Vec<song::Model>)
    ensures
        views(r@) == songs_of(views(songs@), views(tokens@)),
{
    let mut out: Vec<song::Model> = Vec::new();
    let mut i: usize = 0;
    assert(views(songs@).take(0) =~= Seq::<song::Row>::empty());
    assert(views(out@) =~= Seq::<song::Row>::empty());
    while i < songs.len()
        invariant
            i <= songs.len(),
            views(out@) == songs_of(views(songs@).take(i as int), views(tokens@)),
            ascending::<song::Model>(views(out@)),
        decreases songs.len() - i,
    {
        proof {
            assert(views(songs@).take(i + 1).drop_last() =~= views(songs@).take(i as int));
            assert(views(songs@).take(i + 1).last() == songs@[i as int]@);
        }
        if matches_song(&songs[i], tokens) {
            insert_sorted(&mut out, songs[i].clone());
        }
        i = i + 1;
    }
    assert(views(songs@).take(i as int) =~= views(songs@));
    out
}

/// Cuts the page out of a listing.
pub fn paged<T: View>(all: Vec<T>, limit: Option<u32>, offset: Option<u32>) -> (r: Vec<T>)
    ensures
        r@ == page(all@, limit, offset),
        views(r@) == page(views(all@), limit, offset),
{
    let mut all = all;
    let ghost whole = all@;
    let skipped: usize = match offset {
        Some(n) => if (n as usize) <= all.len() {
            n as usize
        } else {
            all.len()
        },
        None => 0,
    };
    let mut rest = all.split_off(skipped);
    assert(rest@ =~= whole.skip(skipped as int));
    assert(views(rest@) =~= views(whole).skip(skipped as int));
    match limit {
        Some(n) => {
            if (n as usize) <= rest.len() {
                rest.truncate(n as usize);
                assert(rest@ =~= whole.skip(skipped as int).take(n as int));
                assert(views(rest@) =~= views(whole).skip(skipped as int).take(n as int));
            }
        },
        None => {},
    }
    rest
}

/// Cuts the page out of a listing of artists or albums.
pub fn windowed<T: View>(all: Vec<T>, limit: Option<u32>, offset: Option<u32>) -> (r: Vec<T>)
    ensures
        r@ == window(all@, limit, offset),
        views(r@) == window(views(all@), limit, offset),
{
    match limit {
        Some(_) => paged(all, limit, offset),
        None => all,
    }
}

/// Some song of `songs` carries the artist `name`, and `name` holds every
/// word of `tokens`.
pub open spec fn artist_listed(
    songs: Seq<song::Row>,
    tokens: Seq<Seq<char>>,
    name: Seq<char>,
) -> bool {
    exists|i: int|
        0 <= i < songs.len() && (#[trigger] songs[i]).artist == Some(name) && all_in(name, tokens)
}

/// Some song of `songs` carries the album's title and artist, and the title
/// holds every word of `tokens`.
pub open spec fn album_listed(
    songs: Seq<song::Row>,
    tokens: Seq<Seq<char>>,
    album: AlbumRow,
) -> bool {
    exists|i: int|
        0 <= i < songs.len() && (#[trigger] songs[i]).album == Some(album.title) && songs[i].artist
            == album.artist && all_in(album.title, tokens)
}

/// No two rows of `songs` share an id.
pub open spec fn distinct_ids(songs: Seq<song::Row>) -> bool {
    forall|i: int, j: int|
        0 <= i < j < songs.len() ==> (#[trigger] songs[i]).id != (#[trigger] songs[j]).id
}

/// Every word of `fewer` is a word of `more`.
pub open spec fn includes(more: Seq<Seq<char>>, fewer: Seq<Seq<char>>) -> bool {
    forall|i: int| 0 <= i < fewer.len() ==> more.contains(#[trigger] fewer[i])
}

/// The listing of artists is ascending by name, and holds a name exactly
/// where some song carries it and it holds every word.
pub proof fn lemma_artists_listed(songs: Seq<song::Row>, tokens: Seq<Seq<char>>)
    ensures
        ascending::<Artist>(artists_of(songs, tokens)),
        forall|name: Seq<char>| #[trigger]
            artists_of(songs, tokens).contains(ArtistRow { name }) <==> artist_listed(
                songs,
                tokens,
                name,
            ),
    decreases songs.len(),
{
    let out = artists_of(songs, tokens);
    if songs.len() > 0 {
        let front = songs.drop_last();
        let rest = artists_of(front, tokens);
        lemma_artists_listed(front, tokens);
        let last = songs.last();
        let added = last.artist is Some && all_in(last.artist->0, tokens);
        if added {
            lemma_place_keeps::<Artist>(rest, ArtistRow { name: last.artist->0 });
        }
        assert forall|name: Seq<char>| #[trigger]
            out.contains(ArtistRow { name }) <==> artist_listed(songs, tokens, name) by {
            let row = ArtistRow { name };
            if out.contains(row) {
                let at = choose|at: int| 0 <= at < out.len() && out[at] == row;
                if added && out[at] == (ArtistRow { name: last.artist->0 }) {
                    assert(songs[songs.len() - 1].artist == Some(name));
                } else {
                    assert(rest.contains(row));
                    let i = choose|i: int|
                        0 <= i < front.len() && (#[trigger] front[i]).artist == Some(name)
                            && all_in(name, tokens);
                    assert(songs[i].artist == Some(name));
                }
            }
            if artist_listed(songs, tokens, name) {
                let i = choose|i: int|
                    0 <= i < songs.len() && (#[trigger] songs[i]).artist == Some(name) && all_in(
                        name,
                        tokens,
                    );
                if i < front.len() {
                    assert(front[i].artist == Some(name));
                    assert(rest.contains(row));
                    if added {
                        let m = choose|m: int| 0 <= m < rest.len() && rest[m] == row;
                        assert(out.contains(rest[m]));
                    }
                } else {
                    assert(added);
                    if has_key::<Artist>(rest, Artist::key(row)) {
                        let m = choose|m: int|
                            0 <= m < rest.len() && Artist::key(#[trigger] rest[m]) == Artist::key(
                                row,
                            );
                        assert(rest[m] == row);
                        assert(out.contains(rest[m]));
                    }
                }
            }
        }
    }
}

/// The listing of albums is ascending by title, then by artist, and holds
/// a pair exactly where some song carries it and the title holds every
/// word.
pub proof fn lemma_albums_listed(songs: Seq<song::Row>, tokens: Seq<Seq<char>>)
    ensures
        ascending::<Album>(albums_of(songs, tokens)),
        forall|album: AlbumRow| #[trigger]
            albums_of(songs, tokens).contains(album) <==> album_listed(songs, tokens, album),
    decreases songs.len(),
{
    let out = albums_of(songs, tokens);
    if songs.len() > 0 {
        let front = songs.drop_last();
        let rest = albums_of(front, tokens);
        lemma_albums_listed(front, tokens);
        let last = songs.last();
        let added = last.album is Some && all_in(last.album->0, tokens);
        let new = AlbumRow { title: last.album->0, artist: last.artist };
        if added {
            lemma_place_keeps::<Album>(rest, new);
        }
        assert forall|album: AlbumRow| #[trigger]
            out.contains(album) <==> album_listed(songs, tokens, album) by {
            if out.contains(album) {
                let at = choose|at: int| 0 <= at < out.len() && out[at] == album;
                if added && out[at] == new {
                    assert(songs[songs.len() - 1].album == Some(album.title));
                } else {
                    assert(rest.contains(album));
                    let i = choose|i: int|
                        0 <= i < front.len() && (#[trigger] front[i]).album == Some(album.title)
                            && front[i].artist == album.artist && all_in(album.title, tokens);
                    assert(songs[i].album == Some(album.title));
                }
            }
            if album_listed(songs, tokens, album) {
                let i = choose|i: int|
                    0 <= i < songs.len() && (#[trigger] songs[i]).album == Some(album.title)
                        && songs[i].artist == album.artist && all_in(album.title, tokens);
                if i < front.len() {
                    assert(front[i].album == Some(album.title));
                    assert(rest.contains(album));
                    if added {
                        let m = choose|m: int| 0 <= m < rest.len() && rest[m] == album;
                        assert(out.contains(rest[m]));
                    }
                } else {
                    assert(added);
                    assert(new == album);
                    if has_key::<Album>(rest, Album::key(album)) {
                        let m = choose|m: int|
                            0 <= m < rest.len() && Album::key(#[trigger] rest[m]) == Album::key(
                                album,
                            );
                        assert(rest[m] == album);
                        assert(out.contains(rest[m]));
                    }
                }
            }
        }
    }
}

/// Where no two songs share an id, the listing of songs is ascending by
/// title, then by id, and holds a row exactly where the row is one of the
/// songs and the words match it.
pub proof fn lemma_songs_listed(songs: Seq<song::Row>, tokens: Seq<Seq<char>>)
    requires
        distinct_ids(songs),
    ensures
        ascending::<song::Model>(songs_of(songs, tokens)),
        forall|row: song::Row| #[trigger]
            songs_of(songs, tokens).contains(row) <==> (songs.contains(row) && song_matches(
                row,
                tokens,
            )),
    decreases songs.len(),
{
    let out = songs_of(songs, tokens);
    if songs.len() > 0 {
        let front = songs.drop_last();
        let rest = songs_of(front, tokens);
        assert(distinct_ids(front)) by {
            assert forall|i: int, j: int| 0 <= i < j < front.len() implies (#[trigger] front[i]).id
                != (#[trigger] front[j]).id by {
                assert(songs[i].id != songs[j].id);
            }
        }
        lemma_songs_listed(front, tokens);
        let last = songs.last();
        let added = song_matches(last, tokens);
        if added {
            lemma_place_keeps::<song::Model>(rest, last);
            if has_key::<song::Model>(rest, song::Model::key(last)) {
                let m = choose|m: int|
                    0 <= m < rest.len() && song::Model::key(#[trigger] rest[m]) == song::Model::key(
                        last,
                    );
                assert(rest.contains(rest[m]));
                assert(front.contains(rest[m]));
                let i = choose|i: int| 0 <= i < front.len() && front[i] == rest[m];
                assert(songs[i].id != songs[songs.len() - 1].id);
            }
        }
        assert forall|row: song::Row| #[trigger]
            out.contains(row) <==> (songs.contains(row) && song_matches(row, tokens)) by {
            if out.contains(row) {
                let at = choose|at: int| 0 <= at < out.len() && out[at] == row;
                if added && out[at] == last {
                    assert(songs[songs.len() - 1] == row);
                } else {
                    assert(rest.contains(row));
                    let i = choose|i: int| 0 <= i < front.len() && front[i] == row;
                    assert(songs[i] == row);
                }
            }
            if songs.contains(row) && song_matches(row, tokens) {
                let i = choose|i: int| 0 <= i < songs.len() && songs[i] == row;
                if i < front.len() {
                    assert(front[i] == row);
                    assert(rest.contains(row));
                    if added {
                        let m = choose|m: int| 0 <= m < rest.len() && rest[m] == row;
                        assert(out.contains(rest[m]));
                    }
                }
            }
        }
    }
}

/// Where a text holds every word of a list, it holds every word of a list
/// that the first one includes.
pub proof fn lemma_all_in_fewer(text: Seq<char>, more: Seq<Seq<char>>, fewer: Seq<Seq<char>>)
    requires
        includes(more, fewer),
        all_in(text, more),
    ensures
        all_in(text, fewer),
{
    assert forall|i: int| 0 <= i < fewer.len() implies contains_folded(
        text,
        #[trigger] fewer[i],
    ) by {
        assert(more.contains(fewer[i]));
        let j = choose|j: int| 0 <= j < more.len() && more[j] == fewer[i];
        assert(contains_folded(text, more[j]));
    }
}

/// A song that a list of words matches is matched by every list that the
/// first one includes.
pub proof fn lemma_match_fewer(row: song::Row, more: Seq<Seq<char>>, fewer: Seq<Seq<char>>)
    requires
        includes(more, fewer),
        song_matches(row, more),
    ensures
        song_matches(row, fewer),
{
    if more.len() == 0 {
        if fewer.len() > 0 {
            assert(more.contains(fewer[0]));
        }
    } else if all_in(row.title, more) {
        lemma_all_in_fewer(row.title, more, fewer);
    } else if opt_all_in(row.artist, more) {
        lemma_all_in_fewer(row.artist->0, more, fewer);
    } else {
        lemma_all_in_fewer(row.album->0, more, fewer);
    }
}

/// More words find less: every artist, album and song that a search for
/// `more` lists is listed by a search for `fewer`, where `more` includes
/// `fewer`.
pub proof fn lemma_search_narrows(
    songs: Seq<song::Row>,
    more: Seq<Seq<char>>,
    fewer: Seq<Seq<char>>,
)
    requires
        distinct_ids(songs),
        includes(more, fewer),
    ensures
        forall|row: song::Row| #[trigger]
            songs_of(songs, more).contains(row) ==> songs_of(songs, fewer).contains(row),
        forall|artist: ArtistRow| #[trigger]
            artists_of(songs, more).contains(artist) ==> artists_of(songs, fewer).contains(artist),
        forall|album: AlbumRow| #[trigger]
            albums_of(songs, more).contains(album) ==> albums_of(songs, fewer).contains(album),
{
    lemma_songs_listed(songs, more);
    lemma_songs_listed(songs, fewer);
    lemma_artists_listed(songs, more);
    lemma_artists_listed(songs, fewer);
    lemma_albums_listed(songs, more);
    lemma_albums_listed(songs, fewer);
    assert forall|row: song::Row| #[trigger]
        songs_of(songs, more).contains(row) implies songs_of(songs, fewer).contains(row) by {
        lemma_match_fewer(row, more, fewer);
    }
    assert forall|artist: ArtistRow| #[trigger]
        artists_of(songs, more).contains(artist) implies artists_of(songs, fewer).contains(
        artist,
    ) by {
        let name = artist.name;
        assert(artist == ArtistRow { name });
        assert(artist_listed(songs, more, name));
        lemma_all_in_fewer(name, more, fewer);
        let i = choose|i: int|
            0 <= i < songs.len() && (#[trigger] songs[i]).artist == Some(name) && all_in(
                name,
                more,
            );
        assert(artist_listed(songs, fewer, name));
    }
    assert forall|album: AlbumRow| #[trigger]
        albums_of(songs, more).contains(album) implies albums_of(songs, fewer).contains(album) by {
        assert(album_listed(songs, more, album));
        lemma_all_in_fewer(album.title, more, fewer);
        let i = choose|i: int|
            0 <= i < songs.len() && (#[trigger] songs[i]).album == Some(album.title)
                && songs[i].artist == album.artist && all_in(album.title, more);
        assert(album_listed(songs, fewer, album));
    }
}

/// A search without words lists every song.
pub proof fn lemma_empty_search(songs: Seq<song::Row>)
    requires
        distinct_ids(songs),
    ensures
        ascending::<song::Model>(songs_of(songs, Seq::empty())),
        forall|row: song::Row| #[trigger]
            songs_of(songs, Seq::empty()).contains(row) <==> songs.contains(row),
{
    lemma_songs_listed(songs, Seq::empty());
}

/// The first `count` pages of `size` rows each, one after the other.
pub open spec fn pages<A>(all: Seq<A>, size: u32, count: nat) -> Seq<A>
    decreases count,
{
    if count == 0 {
        Seq::empty()
    } else {
        pages(all, size, (count - 1) as nat) + page(
            all,
            Some(size),
            Some(((count - 1) * size) as u32),
        )
    }
}

/// Successive pages, each starting where the one before ended, add up to
/// the start of the whole listing: to all of it once the pages reach its
/// end.
pub proof fn lemma_pages<A>(all: Seq<A>, size: u32, count: nat)
    requires
        count * size <= u32::MAX,
    ensures
        pages(all, size, count) == all.take(
            if count * size <= all.len() {
                count * size
            } else {
                all.len() as int
            },
        ),
    decreases count,
{
    if count == 0 {
        assert(0 * size == 0) by (nonlinear_arith);
        assert(all.take(0) =~= Seq::<A>::empty());
    } else {
        let before = (count - 1) as nat;
        assert(before * size == count * size - size) by (nonlinear_arith)
            requires
                before == count - 1,
        ;
        lemma_pages(all, size, before);
        let start: int = if before * size <= all.len() {
            before * size
        } else {
            all.len() as int
        };
        let end: int = if count * size <= all.len() {
            count * size
        } else {
            all.len() as int
        };
        assert(pages(all, size, before) + page(all, Some(size), Some((before * size) as u32))
            =~= all.take(end));
    }
}

} // verus!
