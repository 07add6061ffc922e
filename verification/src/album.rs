//! Album aggregator: groups an ordered stream of tracks into albums.
//!
//! Tracks that follow one another with the same album title and album
//! artist form one album. An album is keyed by that pair; when a key comes
//! round again after other albums, the later album takes the earlier one's
//! place, as an insertion into a map keyed by it would.

use vstd::prelude::*;
use vstd::string::*;
use crate::classify::FsEntry;
use crate::cover::{find_cover, find_cover_art};
use crate::metadata::{SongMetadata, TrackRecord};
use crate::text::opt_view;

verus! {

/// One album with its tracks, in the order in which they arrived.
#[derive(Debug, PartialEq, Eq)]
pub struct AlbumMetadata {
    /// Directory of the album's first track.
    pub location_on_disk: String,
    pub cover_path: Option<String>,
    pub title: String,
    pub artist: String,
    /// Year of the album's first track.
    pub year: i32,
    /// Genre of the album's first track.
    pub genre: String,
    pub songs: Vec<SongMetadata>,
}

/// Mathematical value of an [`AlbumMetadata`].
pub ghost struct AlbumRecord {
    pub location_on_disk: Seq<char>,
    pub cover_path: Option<Seq<char>>,
    pub title: Seq<char>,
    pub artist: Seq<char>,
    pub year: i32,
    pub genre: Seq<char>,
    pub songs: Seq<TrackRecord>,
}

/// Album title and album artist: what an album is keyed by.
pub type AlbumKey = (Seq<char>, Seq<char>);

/// Values of a sequence of tracks.
pub open spec fn songs_view(songs: Seq<SongMetadata>) -> Seq<TrackRecord> {
    Seq::new(songs.len(), |i: int| songs[i]@)
}

/// Values of a sequence of albums.
pub open spec fn albums_view(albums: Seq<AlbumMetadata>) -> Seq<AlbumRecord> {
    Seq::new(albums.len(), |i: int| albums[i]@)
}

impl View for AlbumMetadata {
    type V = AlbumRecord;

    open spec fn view(&self) -> AlbumRecord {
        AlbumRecord {
            location_on_disk: self.location_on_disk@,
            cover_path: opt_view(self.cover_path),
            title: self.title@,
            artist: self.artist@,
            year: self.year,
            genre: self.genre@,
            songs: songs_view(self.songs@),
        }
    }
}

/// The key of the album that a track belongs to.
pub open spec fn track_key(t: TrackRecord) -> AlbumKey {
    (t.album_title, t.album_artist)
}

/// The key of an album.
pub open spec fn album_key(a: AlbumRecord) -> AlbumKey {
    (a.title, a.artist)
}

/// An album holds at least one track, and each of its tracks carries the
/// album's key.
pub open spec fn album_wf(a: AlbumRecord) -> bool {
    &&& a.songs.len() > 0
    &&& forall|i: int| 0 <= i < a.songs.len() ==> track_key(#[trigger] a.songs[i]) == album_key(a)
}

/// Least index of an album with key `k`; the length where there is none.
pub open spec fn find_key(albums: Seq<AlbumRecord>, k: AlbumKey) -> int
    decreases albums.len(),
{
    if albums.len() == 0 {
        0
    } else if album_key(albums[0]) == k {
        0
    } else {
        1 + find_key(albums.drop_first(), k)
    }
}

/// The albums as a map from key to album.
pub open spec fn as_map(albums: Seq<AlbumRecord>) -> Map<AlbumKey, AlbumRecord> {
    Map::new(
        |k: AlbumKey| find_key(albums, k) < albums.len(),
        |k: AlbumKey| albums[find_key(albums, k)],
    )
}

/// No two albums share a key.
pub open spec fn distinct_keys(albums: Seq<AlbumRecord>) -> bool {
    forall|i: int, j: int|
        0 <= i < j < albums.len() ==> album_key(#[trigger] albums[i]) != album_key(
            #[trigger] albums[j],
        )
}

/// Every album is well formed and no two share a key.
pub open spec fn albums_wf(albums: Seq<AlbumRecord>) -> bool {
    &&& distinct_keys(albums)
    &&& forall|i: int| 0 <= i < albums.len() ==> album_wf(#[trigger] albums[i])
}

/// `albums` after `a` is sealed into it: `a` takes the place of the album
/// with its key, or comes last where there is none.
pub open spec fn put(albums: Seq<AlbumRecord>, a: AlbumRecord) -> Seq<AlbumRecord> {
    let i = find_key(albums, album_key(a));
    if i < albums.len() {
        albums.update(i, a)
    } else {
        albums.push(a)
    }
}

/// The aggregator's state: the albums sealed so far and the open one.
pub ghost struct Grouping {
    pub sealed: Seq<AlbumRecord>,
    pub current: Option<AlbumRecord>,
}

/// The state before any track.
pub open spec fn empty_grouping() -> Grouping {
    Grouping { sealed: Seq::empty(), current: None }
}

/// Whether a track starts a new album: no album is open, or the open one
/// differs from the track's in title or artist.
pub open spec fn opens_album(current: Option<AlbumRecord>, t: TrackRecord) -> bool {
    match current {
        None => true,
        Some(a) => album_key(a) != track_key(t),
    }
}

/// The album that a track opens: located in the track's directory, with the
/// track's year and genre, the resolved cover, and the track as its first.
pub open spec fn new_album(t: TrackRecord, cover: Option<Seq<char>>) -> AlbumRecord {
    AlbumRecord {
        location_on_disk: t.parent_dir,
        cover_path: cover,
        title: t.album_title,
        artist: t.album_artist,
        year: t.year,
        genre: t.genre,
        songs: seq![t],
    }
}

/// `a` with one more track.
pub open spec fn with_song(a: AlbumRecord, t: TrackRecord) -> AlbumRecord {
    AlbumRecord { songs: a.songs.push(t), ..a }
}

/// The sealed albums once the open album, if any, is sealed too.
pub open spec fn flush(g: Grouping) -> Seq<AlbumRecord> {
    match g.current {
        Some(a) => put(g.sealed, a),
        None => g.sealed,
    }
}

/// The state after one more track. `cover` is the cover resolved for the
/// track's directory and album title; it is read only when the track opens
/// an album.
pub open spec fn accept(g: Grouping, t: TrackRecord, cover: Option<Seq<char>>) -> Grouping {
    if opens_album(g.current, t) {
        Grouping { sealed: flush(g), current: Some(new_album(t, cover)) }
    } else {
        Grouping { sealed: g.sealed, current: Some(with_song(g.current->0, t)) }
    }
}

/// The state is well formed: so are the sealed albums and the open one.
pub open spec fn grouping_wf(g: Grouping) -> bool {
    &&& albums_wf(g.sealed)
    &&& g.current is Some ==> album_wf(g.current->0)
}

/// What `find_key` returns: an index up to the length, at which the key
/// stands if it is below the length, and before which it does not.
pub proof fn lemma_find_key(albums: Seq<AlbumRecord>, k: AlbumKey)
    ensures
        0 <= find_key(albums, k) <= albums.len(),
        find_key(albums, k) < albums.len() ==> album_key(albums[find_key(albums, k)]) == k,
        forall|j: int| 0 <= j < find_key(albums, k) ==> album_key(#[trigger] albums[j]) != k,
    decreases albums.len(),
{
    if albums.len() > 0 && album_key(albums[0]) != k {
        let rest = albums.drop_first();
        lemma_find_key(rest, k);
        assert forall|j: int| 0 <= j < find_key(albums, k) implies album_key(
            #[trigger] albums[j],
        ) != k by {
            if j > 0 {
                assert(rest[j - 1] == albums[j]);
            }
        }
    }
}

/// An index with the key at it, or the length, and without the key before
/// it, is what `find_key` returns.
pub proof fn lemma_find_key_is(albums: Seq<AlbumRecord>, k: AlbumKey, i: int)
    requires
        0 <= i <= albums.len(),
        i < albums.len() ==> album_key(albums[i]) == k,
        forall|j: int| 0 <= j < i ==> album_key(#[trigger] albums[j]) != k,
    ensures
        find_key(albums, k) == i,
{
    lemma_find_key(albums, k);
    let r = find_key(albums, k);
    if r < i {
        assert(album_key(albums[r]) != k);
    }
    if i < r {
        assert(album_key(albums[i]) != k);
    }
}

/// Where a key stands after an album is sealed: the sealed album's key at
/// the place that the album took; any other key where it stood before, and
/// nowhere if it stood nowhere.
pub proof fn lemma_find_key_put(albums: Seq<AlbumRecord>, a: AlbumRecord, q: AlbumKey)
    ensures
        q == album_key(a) ==> find_key(put(albums, a), q) == find_key(albums, album_key(a))
            && find_key(put(albums, a), q) < put(albums, a).len(),
        q != album_key(a) && find_key(albums, q) < albums.len() ==> find_key(put(albums, a), q)
            == find_key(albums, q),
        q != album_key(a) && find_key(albums, q) == albums.len() ==> find_key(put(albums, a), q)
            == put(albums, a).len(),
{
    let k = album_key(a);
    let i = find_key(albums, k);
    let after = put(albums, a);
    lemma_find_key(albums, k);
    lemma_find_key(albums, q);
    let r = find_key(albums, q);
    if q == k {
        assert(after[i] == a);
        assert forall|j: int| 0 <= j < i implies album_key(#[trigger] after[j]) != q by {
            assert(after[j] == albums[j]);
        }
        lemma_find_key_is(after, q, i);
    } else if r < albums.len() {
        assert(r != i);
        assert(after[r] == albums[r]);
        assert forall|j: int| 0 <= j < r implies album_key(#[trigger] after[j]) != q by {
            if j != i {
                assert(after[j] == albums[j]);
            }
        }
        lemma_find_key_is(after, q, r);
    } else {
        assert forall|j: int| 0 <= j < after.len() implies album_key(#[trigger] after[j])
            != q by {
            if j != i {
                assert(after[j] == albums[j]);
            }
        }
        lemma_find_key_is(after, q, after.len() as int);
    }
}

/// Sealing an album is insertion under its key, and keeps the albums well
/// formed.
pub proof fn lemma_put(albums: Seq<AlbumRecord>, a: AlbumRecord)
    ensures
        as_map(put(albums, a)) == as_map(albums).insert(album_key(a), a),
        albums_wf(albums) && album_wf(a) ==> albums_wf(put(albums, a)),
        put(albums, a).len() >= albums.len(),
{
    let k = album_key(a);
    let i = find_key(albums, k);
    let after = put(albums, a);
    let target = as_map(albums).insert(k, a);
    lemma_find_key(albums, k);
    assert forall|q: AlbumKey| #[trigger]
        as_map(after).dom().contains(q) == target.dom().contains(q) by {
        lemma_find_key_put(albums, a, q);
        lemma_find_key(albums, q);
    }
    assert forall|q: AlbumKey| #[trigger]
        as_map(after).dom().contains(q) implies as_map(after)[q] == target[q] by {
        lemma_find_key_put(albums, a, q);
        lemma_find_key(albums, q);
        if q != k {
            assert(after[find_key(albums, q)] == albums[find_key(albums, q)]);
        }
    }
    assert(as_map(after) =~= target);
    if albums_wf(albums) && album_wf(a) {
        assert forall|x: int, y: int| 0 <= x < y < after.len() implies album_key(
            #[trigger] after[x],
        ) != album_key(#[trigger] after[y]) by {
            if x != i && y != i {
                assert(after[x] == albums[x] && after[y] == albums[y]);
            } else if i < albums.len() {
                if x == i {
                    assert(after[y] == albums[y]);
                    assert(album_key(albums[x]) != album_key(albums[y]));
                } else {
                    assert(after[x] == albums[x]);
                    assert(album_key(albums[x]) != album_key(albums[y]));
                }
            } else {
                assert(y == i);
                assert(after[x] == albums[x]);
            }
        }
        assert forall|x: int| 0 <= x < after.len() implies album_wf(#[trigger] after[x]) by {
            if x != i {
                assert(after[x] == albums[x]);
            }
        }
    }
}

/// One more track keeps the state well formed.
pub proof fn lemma_accept_wf(g: Grouping, t: TrackRecord, cover: Option<Seq<char>>)
    requires
        grouping_wf(g),
    ensures
        grouping_wf(accept(g, t, cover)),
        albums_wf(flush(g)),
{
    if g.current is Some {
        lemma_put(g.sealed, g.current->0);
    }
    if opens_album(g.current, t) {
        assert(new_album(t, cover).songs[0] == t);
    } else {
        let a = g.current->0;
        let b = with_song(a, t);
        assert forall|i: int| 0 <= i < b.songs.len() implies track_key(#[trigger] b.songs[i])
            == album_key(b) by {
            if i < a.songs.len() {
                assert(b.songs[i] == a.songs[i]);
            }
        }
    }
}

impl Clone for AlbumMetadata {
    fn clone(&self) -> (r: Self)
        ensures
            r@ == self@,
    {
        let mut songs: Vec<SongMetadata> = Vec::new();
        let mut i: usize = 0;
        while i < self.songs.len()
            invariant
                i <= self.songs.len(),
                songs@ == self.songs@.subrange(0, i as int),
            decreases self.songs.len() - i,
        {
            songs.push(self.songs[i].clone());
            i += 1;
            assert(songs@ =~= self.songs@.subrange(0, i as int));
        }
        assert(songs@ =~= self.songs@);
        AlbumMetadata {
            location_on_disk: self.location_on_disk.clone(),
            cover_path: match &self.cover_path {
                Some(p) => Some(p.clone()),
                None => None,
            },
            title: self.title.clone(),
            artist: self.artist.clone(),
            year: self.year,
            genre: self.genre.clone(),
            songs,
        }
    }
}

/// Seals `album` into `sealed`: it takes the place of the album with its
/// title and artist, or comes last where there is none.
pub fn put_album(sealed: &mut Vec<AlbumMetadata>, album: AlbumMetadata)
    ensures
        albums_view(final(sealed)@) == put(albums_view(old(sealed)@), album@),
{
    let ghost before = albums_view(sealed@);
    let mut i: usize = 0;
    while i < sealed.len()
        invariant
            i <= sealed.len(),
            sealed@ == old(sealed)@,
            before == albums_view(sealed@),
            forall|j: int| 0 <= j < i ==> album_key(#[trigger] before[j]) != album_key(album@),
        decreases sealed.len() - i,
    {
        assert(before[i as int] == sealed@[i as int]@);
        if sealed[i].title == album.title && sealed[i].artist == album.artist {
            proof {
                lemma_find_key_is(before, album_key(album@), i as int);
            }
            sealed.set(i, album);
            assert(albums_view(sealed@) =~= before.update(i as int, album@));
            return;
        }
        i += 1;
    }
    proof {
        lemma_find_key_is(before, album_key(album@), before.len() as int);
    }
    sealed.push(album);
    assert(albums_view(sealed@) =~= before.push(album@));
}

/// Groups tracks into albums as they arrive.
#[derive(Debug)]
pub struct Aggregator {
    /// The albums sealed so far.
    pub sealed: Vec<AlbumMetadata>,
    /// The album that the last track belongs to.
    pub current: Option<AlbumMetadata>,
}

/// Value of an album where there is one.
pub open spec fn opt_album_view(a: Option<AlbumMetadata>) -> Option<AlbumRecord> {
    match a {
        Some(x) => Some(x@),
        None => None,
    }
}

impl View for Aggregator {
    type V = Grouping;

    open spec fn view(&self) -> Grouping {
        Grouping { sealed: albums_view(self.sealed@), current: opt_album_view(self.current) }
    }
}

impl Aggregator {
    /// An aggregator that has seen no track.
    pub fn new() -> (r: Self)
        ensures
            r@ == empty_grouping(),
            grouping_wf(r@),
    {
        let r = Aggregator { sealed: Vec::new(), current: None };
        assert(albums_view(r.sealed@) =~= Seq::empty());
        r
    }

    /// Whether `meta` would start a new album, for which a cover is then
    /// resolved.
    pub fn opens_album(&self, meta: &SongMetadata) -> (r: bool)
        ensures
            r == opens_album(self@.current, meta@),
    {
        match &self.current {
            None => true,
            Some(a) => {
                let same = a.title == meta.album_title && a.artist == meta.album_artist;
                assert(same == (album_key(a@) == track_key(meta@)));
                !same
            },
        }
    }

    /// Takes the next track. Where it starts a new album, the open album is
    /// sealed and the new album's cover is searched in `listing`, the walk of
    /// the track's directory; otherwise the track joins the open album and
    /// `listing` is not read.
    pub fn push(&mut self, meta: SongMetadata, listing: &Vec<FsEntry>)
        ensures
            final(self)@ == accept(
                old(self)@,
                meta@,
                find_cover(listing@, meta@.album_title),
            ),
            grouping_wf(old(self)@) ==> grouping_wf(final(self)@),
    {
        proof {
            if grouping_wf(self@) {
                lemma_accept_wf(self@, meta@, find_cover(listing@, meta@.album_title));
            }
        }
        let opens = self.opens_album(&meta);
        let previous = self.current.take();
        if opens {
            let cover = find_cover_art(listing, meta.album_title.as_str());
            if let Some(album) = previous {
                put_album(&mut self.sealed, album);
            }
            let album = AlbumMetadata {
                location_on_disk: meta.parent_dir.clone(),
                cover_path: cover,
                title: meta.album_title.clone(),
                artist: meta.album_artist.clone(),
                year: meta.year,
                genre: meta.genre.clone(),
                songs: Vec::new(),
            };
            let mut album = album;
            album.songs.push(meta);
            assert(album@.songs =~= seq![meta@]);
            self.current = Some(album);
        } else {
            match previous {
                Some(a) => {
                    let mut a = a;
                    let ghost before = a@;
                    a.songs.push(meta);
                    assert(a@.songs =~= before.songs.push(meta@));
                    self.current = Some(a);
                },
                None => {},
            }
        }
    }

    /// Seals the open album, if any, and hands out all albums.
    pub fn finish(self) -> (albums: Vec<AlbumMetadata>)
        ensures
            albums_view(albums@) == flush(self@),
            grouping_wf(self@) ==> albums_wf(albums_view(albums@)),
    {
        proof {
            if grouping_wf(self@) && self@.current is Some {
                lemma_put(self@.sealed, self@.current->0);
            }
        }
        let mut sealed = self.sealed;
        if let Some(album) = self.current {
            put_album(&mut sealed, album);
        }
        sealed
    }
}

} // verus!
