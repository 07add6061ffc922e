//! What aggregation does to a whole sequence of tracks, and the law that a
//! run of tracks of one album ends up in one album.

use vstd::prelude::*;
use crate::album::{accept, album_key, album_wf, albums_wf, as_map, empty_grouping, find_key, flush,
    grouping_wf, lemma_accept_wf, lemma_find_key, lemma_put, new_album, opens_album, track_key,
    AlbumKey, AlbumRecord, Grouping};
use crate::metadata::TrackRecord;

verus! {

/// A track as it reaches the aggregator, with the cover that resolution
/// gives for its directory and album title.
pub ghost struct Arrival {
    pub track: TrackRecord,
    pub cover: Option<Seq<char>>,
}

/// The aggregator's state after all of `arrivals`, in order.
pub open spec fn aggregate(arrivals: Seq<Arrival>) -> Grouping
    decreases arrivals.len(),
{
    if arrivals.len() == 0 {
        empty_grouping()
    } else {
        accept(aggregate(arrivals.drop_last()), arrivals.last().track, arrivals.last().cover)
    }
}

/// The albums that `arrivals` are grouped into.
pub open spec fn grouped(arrivals: Seq<Arrival>) -> Seq<AlbumRecord> {
    flush(aggregate(arrivals))
}

/// The key of the `i`-th arrival.
pub open spec fn key_at(arrivals: Seq<Arrival>, i: int) -> AlbumKey {
    track_key(arrivals[i].track)
}

/// The tracks of `arrivals[from..to]`.
pub open spec fn tracks_between(arrivals: Seq<Arrival>, from: int, to: int) -> Seq<TrackRecord> {
    Seq::new((to - from) as nat, |n: int| arrivals[from + n].track)
}

/// Start of the run that the `i`-th arrival stands in: the least index from
/// which on, up to `i`, all arrivals carry one key.
pub open spec fn run_start(arrivals: Seq<Arrival>, i: int) -> int
    decreases i,
{
    if i <= 0 {
        0
    } else if key_at(arrivals, i - 1) == key_at(arrivals, i) {
        run_start(arrivals, i - 1)
    } else {
        i
    }
}

/// End of the run that the `i`-th arrival stands in: the index behind the
/// last arrival that carries its key without a break.
pub open spec fn run_end(arrivals: Seq<Arrival>, i: int) -> int
    decreases arrivals.len() - i,
{
    if i + 1 >= arrivals.len() {
        arrivals.len() as int
    } else if key_at(arrivals, i + 1) == key_at(arrivals, i) {
        run_end(arrivals, i + 1)
    } else {
        i + 1
    }
}

/// The album that the run `arrivals[from..to]` makes: opened by its first
/// track, holding all its tracks.
pub open spec fn run_album(arrivals: Seq<Arrival>, from: int, to: int) -> AlbumRecord {
    AlbumRecord {
        songs: tracks_between(arrivals, from, to),
        ..new_album(arrivals[from].track, arrivals[from].cover)
    }
}

/// A run starts at or before each of its arrivals, and carries one key from
/// its start.
pub proof fn lemma_run_start(arrivals: Seq<Arrival>, i: int)
    requires
        0 <= i < arrivals.len(),
    ensures
        0 <= run_start(arrivals, i) <= i,
        forall|n: int|
            run_start(arrivals, i) <= n <= i ==> #[trigger] key_at(arrivals, n) == key_at(
                arrivals,
                i,
            ),
        run_start(arrivals, i) > 0 ==> key_at(arrivals, run_start(arrivals, i) - 1) != key_at(
            arrivals,
            i,
        ),
    decreases i,
{
    if i > 0 && key_at(arrivals, i - 1) == key_at(arrivals, i) {
        lemma_run_start(arrivals, i - 1);
    }
}

/// A run ends behind each of its arrivals, carries one key up to its end,
/// and is followed by another key.
pub proof fn lemma_run_end(arrivals: Seq<Arrival>, i: int)
    requires
        0 <= i < arrivals.len(),
    ensures
        i < run_end(arrivals, i) <= arrivals.len(),
        forall|n: int|
            i <= n < run_end(arrivals, i) ==> #[trigger] key_at(arrivals, n) == key_at(
                arrivals,
                i,
            ),
        run_end(arrivals, i) < arrivals.len() ==> key_at(arrivals, run_end(arrivals, i))
            != key_at(arrivals, i),
    decreases arrivals.len() - i,
{
    if i + 1 < arrivals.len() && key_at(arrivals, i + 1) == key_at(arrivals, i) {
        lemma_run_end(arrivals, i + 1);
    }
}

/// Arrivals that carry one key without a break stand in one run.
pub proof fn lemma_same_run(arrivals: Seq<Arrival>, i: int, j: int)
    requires
        0 <= i <= j < arrivals.len(),
        forall|n: int| i <= n <= j ==> #[trigger] key_at(arrivals, n) == key_at(arrivals, i),
    ensures
        j < run_end(arrivals, i),
        run_start(arrivals, j) == run_start(arrivals, i),
    decreases j - i,
{
    if i < j {
        assert(key_at(arrivals, i + 1) == key_at(arrivals, i));
        assert forall|n: int| i + 1 <= n <= j implies #[trigger] key_at(arrivals, n) == key_at(
            arrivals,
            i + 1,
        ) by {}
        lemma_same_run(arrivals, i + 1, j);
    } else {
        lemma_run_end(arrivals, i);
    }
}

/// The states that aggregation passes through are well formed.
pub proof fn lemma_aggregate_wf(arrivals: Seq<Arrival>)
    ensures
        grouping_wf(aggregate(arrivals)),
        albums_wf(grouped(arrivals)),
    decreases arrivals.len(),
{
    if arrivals.len() > 0 {
        lemma_aggregate_wf(arrivals.drop_last());
        lemma_accept_wf(
            aggregate(arrivals.drop_last()),
            arrivals.last().track,
            arrivals.last().cover,
        );
    }
    let g = aggregate(arrivals);
    if g.current is Some {
        lemma_put(g.sealed, g.current->0);
    }
}

/// After `n` arrivals the open album is the run of the last of them, as far
/// as it has come.
pub proof fn lemma_open_album(arrivals: Seq<Arrival>, n: int)
    requires
        0 < n <= arrivals.len(),
    ensures
        aggregate(arrivals.subrange(0, n)).current == Some(
            run_album(arrivals, run_start(arrivals, n - 1), n),
        ),
    decreases n,
{
    let prefix = arrivals.subrange(0, n);
    let before = arrivals.subrange(0, n - 1);
    assert(prefix.drop_last() =~= before);
    assert(prefix.last() == arrivals[n - 1]);
    let t = arrivals[n - 1].track;
    let g = aggregate(before);
    lemma_run_start(arrivals, n - 1);
    if n == 1 {
        assert(before.len() == 0);
        assert(tracks_between(arrivals, 0, 1) =~= seq![t]);
    } else {
        lemma_open_album(arrivals, n - 1);
        lemma_run_start(arrivals, n - 2);
        let s = run_start(arrivals, n - 2);
        assert(key_at(arrivals, s) == key_at(arrivals, n - 2));
        assert(album_key(run_album(arrivals, s, n - 1)) == key_at(arrivals, n - 2));
        if key_at(arrivals, n - 2) == key_at(arrivals, n - 1) {
            assert(tracks_between(arrivals, s, n) =~= tracks_between(arrivals, s, n - 1).push(t));
        } else {
            assert(tracks_between(arrivals, n - 1, n) =~= seq![t]);
        }
    }
}

/// Once a run has ended and as long as its key has not come again, the
/// sealed albums hold the run's album under its key.
pub proof fn lemma_sealed_run(arrivals: Seq<Arrival>, i: int, n: int)
    requires
        0 <= i < arrivals.len(),
        run_end(arrivals, i) < n <= arrivals.len(),
        forall|m: int|
            run_end(arrivals, i) <= m < n ==> #[trigger] key_at(arrivals, m) != key_at(
                arrivals,
                i,
            ),
    ensures
        as_map(aggregate(arrivals.subrange(0, n)).sealed).contains_pair(
            key_at(arrivals, i),
            run_album(arrivals, run_start(arrivals, i), run_end(arrivals, i)),
        ),
    decreases n,
{
    lemma_run_end(arrivals, i);
    lemma_run_start(arrivals, i);
    let k = key_at(arrivals, i);
    let e = run_end(arrivals, i);
    let prefix = arrivals.subrange(0, n);
    let before = arrivals.subrange(0, n - 1);
    assert(prefix.drop_last() =~= before);
    assert(prefix.last() == arrivals[n - 1]);
    let g = aggregate(before);
    lemma_open_album(arrivals, n - 1);
    lemma_run_start(arrivals, n - 2);
    let open = g.current->0;
    assert(album_key(open) == key_at(arrivals, n - 2)) by {
        assert(key_at(arrivals, run_start(arrivals, n - 2)) == key_at(arrivals, n - 2));
    }
    if n - 1 == e {
        assert(key_at(arrivals, e - 1) == k);
        assert(key_at(arrivals, e) != k);
        lemma_same_run(arrivals, i, e - 1);
        lemma_put(g.sealed, open);
    } else {
        lemma_sealed_run(arrivals, i, n - 1);
        assert(key_at(arrivals, n - 2) != k);
        if opens_album(g.current, arrivals[n - 1].track) {
            lemma_put(g.sealed, open);
        }
    }
}

/// Tracks that follow one another with one album title and album artist end
/// up in exactly one album: the album under their key holds the whole run
/// that they stand in, in order, and no other album holds a track with their
/// key. This is stated for runs whose key does not come again after the run
/// has ended; a later run with the same key takes the earlier one's place.
pub proof fn lemma_run_in_one_album(arrivals: Seq<Arrival>, i: int, j: int)
    requires
        0 <= i <= j < arrivals.len(),
        forall|n: int| i <= n <= j ==> #[trigger] key_at(arrivals, n) == key_at(arrivals, i),
        forall|m: int|
            run_end(arrivals, i) <= m < arrivals.len() ==> #[trigger] key_at(arrivals, m)
                != key_at(arrivals, i),
    ensures
        run_start(arrivals, i) <= i <= j < run_end(arrivals, i) <= arrivals.len(),
        ({
            let albums = grouped(arrivals);
            let p = find_key(albums, key_at(arrivals, i));
            &&& 0 <= p < albums.len()
            &&& albums[p] == run_album(arrivals, run_start(arrivals, i), run_end(arrivals, i))
            &&& forall|q: int, n: int|
                0 <= q < albums.len() && q != p && 0 <= n < albums[q].songs.len() ==> track_key(
                    #[trigger] albums[q].songs[n],
                ) != key_at(arrivals, i)
        }),
{
    let k = key_at(arrivals, i);
    let e = run_end(arrivals, i);
    let s = run_start(arrivals, i);
    let len = arrivals.len() as int;
    let albums = grouped(arrivals);
    let g = aggregate(arrivals);
    lemma_run_start(arrivals, i);
    lemma_run_end(arrivals, i);
    lemma_same_run(arrivals, i, j);
    assert(arrivals.subrange(0, len) =~= arrivals);
    lemma_open_album(arrivals, len);
    lemma_run_start(arrivals, len - 1);
    let open = g.current->0;
    assert(album_key(open) == key_at(arrivals, len - 1)) by {
        assert(key_at(arrivals, run_start(arrivals, len - 1)) == key_at(arrivals, len - 1));
    }
    lemma_put(g.sealed, open);
    if e == len {
        assert(key_at(arrivals, len - 1) == k);
        lemma_same_run(arrivals, i, len - 1);
    } else {
        lemma_sealed_run(arrivals, i, len);
        assert(key_at(arrivals, len - 1) != k);
    }
    assert(as_map(albums).contains_pair(k, run_album(arrivals, s, e)));
    let p = find_key(albums, k);
    lemma_find_key(albums, k);
    lemma_aggregate_wf(arrivals);
    assert forall|q: int, n: int|
        0 <= q < albums.len() && q != p && 0 <= n < albums[q].songs.len() implies track_key(
        #[trigger] albums[q].songs[n],
    ) != k by {
        assert(album_wf(albums[q]));
        if q < p {
            assert(album_key(albums[q]) != album_key(albums[p]));
        } else {
            assert(album_key(albums[p]) != album_key(albums[q]));
        }
    }
}

/// No album is lost: the key of every arrival is a key of the result. In
/// particular the album that is open when the arrivals end is sealed too.
pub proof fn lemma_every_key_kept(arrivals: Seq<Arrival>, i: int)
    requires
        0 <= i < arrivals.len(),
    ensures
        as_map(grouped(arrivals)).dom().contains(key_at(arrivals, i)),
    decreases arrivals.len(),
{
    let before = arrivals.drop_last();
    let g = aggregate(before);
    let after = aggregate(arrivals);
    lemma_put(after.sealed, after.current->0);
    if g.current is Some {
        lemma_put(g.sealed, g.current->0);
    }
    if i < arrivals.len() - 1 {
        lemma_every_key_kept(before, i);
        assert(key_at(before, i) == key_at(arrivals, i));
    }
}

/// The album that is open when the arrivals end is sealed into the result:
/// the result holds the run of the last arrival under its key.
pub proof fn lemma_trailing_album_kept(arrivals: Seq<Arrival>)
    requires
        arrivals.len() > 0,
    ensures
        as_map(grouped(arrivals)).contains_pair(
            key_at(arrivals, arrivals.len() - 1),
            run_album(
                arrivals,
                run_start(arrivals, arrivals.len() - 1),
                arrivals.len() as int,
            ),
        ),
{
    let last = arrivals.len() - 1;
    lemma_run_end(arrivals, last);
    lemma_run_in_one_album(arrivals, last, last);
    lemma_find_key(grouped(arrivals), key_at(arrivals, last));
}

} // verus!
