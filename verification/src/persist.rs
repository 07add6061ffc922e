//! What a finished scan writes to the store: one row for each album, each
//! followed by one row for each of its tracks. The caller writes the rows in
//! this order within one transaction.

use vstd::prelude::*;
use vstd::string::*;
use crate::album::{albums_view, AlbumMetadata, AlbumRecord};
use crate::metadata::{SongMetadata, TrackRecord};

verus! {

/// One row to insert, or to replace where the store holds it already.
#[derive(Debug, PartialEq, Eq)]
pub enum Upsert {
    /// An album's row.
    Album {
        location_on_disk: String,
        cover_path: String,
        title: String,
        artist: String,
        year: i32,
        genre: String,
    },
    /// A track's row, with the cover of the album that holds the track.
    Track { cover_path: String, song: SongMetadata },
}

/// Mathematical value of an [`Upsert`].
pub ghost enum UpsertRecord {
    Album {
        location_on_disk: Seq<char>,
        cover_path: Seq<char>,
        title: Seq<char>,
        artist: Seq<char>,
        year: i32,
        genre: Seq<char>,
    },
    Track { cover_path: Seq<char>, song: TrackRecord },
}

impl View for Upsert {
    type V = UpsertRecord;

    open spec fn view(&self) -> UpsertRecord {
        match self {
            Upsert::Album { location_on_disk, cover_path, title, artist, year, genre } => {
                UpsertRecord::Album {
                    location_on_disk: location_on_disk@,
                    cover_path: cover_path@,
                    title: title@,
                    artist: artist@,
                    year: *year,
                    genre: genre@,
                }
            },
            Upsert::Track { cover_path, song } => UpsertRecord::Track {
                cover_path: cover_path@,
                song: song@,
            },
        }
    }
}

/// Values of a sequence of rows.
pub open spec fn upserts_view(rows: Seq<Upsert>) -> Seq<UpsertRecord> {
    Seq::new(rows.len(), |i: int| rows[i]@)
}

/// The cover path that an album's rows carry: empty where it has no cover.
pub open spec fn cover_text(a: AlbumRecord) -> Seq<char> {
    match a.cover_path {
        Some(p) => p,
        None => Seq::empty(),
    }
}

/// An album's own row.
pub open spec fn album_row(a: AlbumRecord) -> UpsertRecord {
    UpsertRecord::Album {
        location_on_disk: a.location_on_disk,
        cover_path: cover_text(a),
        title: a.title,
        artist: a.artist,
        year: a.year,
        genre: a.genre,
    }
}

/// The rows of an album's first `n` tracks, in order.
pub open spec fn track_rows(a: AlbumRecord, n: int) -> Seq<UpsertRecord> {
    Seq::new(
        n as nat,
        |i: int| UpsertRecord::Track { cover_path: cover_text(a), song: a.songs[i] },
    )
}

/// An album's rows: its own, then those of its tracks in order.
pub open spec fn album_rows(a: AlbumRecord) -> Seq<UpsertRecord> {
    seq![album_row(a)] + track_rows(a, a.songs.len() as int)
}

/// The rows of all albums, album by album.
pub open spec fn commit_plan(albums: Seq<AlbumRecord>) -> Seq<UpsertRecord>
    decreases albums.len(),
{
    if albums.len() == 0 {
        Seq::empty()
    } else {
        commit_plan(albums.drop_last()) + album_rows(albums.last())
    }
}

/// Number of tracks in all albums together.
pub open spec fn total_songs(albums: Seq<AlbumRecord>) -> nat
    decreases albums.len(),
{
    if albums.len() == 0 {
        0
    } else {
        total_songs(albums.drop_last()) + albums.last().songs.len()
    }
}

/// Number of album rows among `rows`.
pub open spec fn count_album_rows(rows: Seq<UpsertRecord>) -> nat
    decreases rows.len(),
{
    if rows.len() == 0 {
        0
    } else {
        count_album_rows(rows.drop_last()) + if rows.last() is Album {
            1nat
        } else {
            0nat
        }
    }
}

/// The count of album rows in a concatenation is the sum of the counts.
pub proof fn lemma_count_album_rows_concat(a: Seq<UpsertRecord>, b: Seq<UpsertRecord>)
    ensures
        count_album_rows(a + b) == count_album_rows(a) + count_album_rows(b),
    decreases b.len(),
{
    if b.len() == 0 {
        assert(a + b =~= a);
    } else {
        assert((a + b).drop_last() =~= a + b.drop_last());
        lemma_count_album_rows_concat(a, b.drop_last());
    }
}

/// Track rows hold no album row.
pub proof fn lemma_track_rows_hold_no_album(a: AlbumRecord, n: int)
    requires
        0 <= n,
    ensures
        count_album_rows(track_rows(a, n)) == 0,
    decreases n,
{
    if n > 0 {
        assert(track_rows(a, n).drop_last() =~= track_rows(a, n - 1));
        lemma_track_rows_hold_no_album(a, n - 1);
    }
}

/// A commit writes one row for each album and one for each track.
pub proof fn lemma_commit_plan_counts(albums: Seq<AlbumRecord>)
    ensures
        commit_plan(albums).len() == albums.len() + total_songs(albums),
        count_album_rows(commit_plan(albums)) == albums.len(),
    decreases albums.len(),
{
    if albums.len() > 0 {
        let a = albums.last();
        lemma_commit_plan_counts(albums.drop_last());
        lemma_count_album_rows_concat(commit_plan(albums.drop_last()), album_rows(a));
        lemma_count_album_rows_concat(seq![album_row(a)], track_rows(a, a.songs.len() as int));
        lemma_track_rows_hold_no_album(a, a.songs.len() as int);
        let own = seq![album_row(a)];
        assert(own.len() == 1 && own.last() is Album);
        assert(own.drop_last().len() == 0);
        assert(count_album_rows(own.drop_last()) == 0);
        assert(count_album_rows(own) == 1);
    }
}

/// The rows of one album, added to `rows`.
fn push_album_rows(rows: &mut Vec<Upsert>, album: &AlbumMetadata)
    ensures
        upserts_view(final(rows)@) == upserts_view(old(rows)@) + album_rows(album@),
{
    let ghost before = upserts_view(rows@);
    let cover_path = match &album.cover_path {
        Some(p) => p.clone(),
        None => String::new(),
    };
    rows.push(
        Upsert::Album {
            location_on_disk: album.location_on_disk.clone(),
            cover_path: cover_path.clone(),
            title: album.title.clone(),
            artist: album.artist.clone(),
            year: album.year,
            genre: album.genre.clone(),
        },
    );
    assert(upserts_view(rows@) =~= before + seq![album_row(album@)] + track_rows(album@, 0));
    let mut i: usize = 0;
    while i < album.songs.len()
        invariant
            i <= album.songs.len(),
            cover_path@ == cover_text(album@),
            upserts_view(rows@) == before + seq![album_row(album@)] + track_rows(
                album@,
                i as int,
            ),
        decreases album.songs.len() - i,
    {
        let ghost shown = upserts_view(rows@);
        rows.push(Upsert::Track { cover_path: cover_path.clone(), song: album.songs[i].clone() });
        assert(album@.songs[i as int] == album.songs@[i as int]@);
        assert(upserts_view(rows@) =~= shown.push(
            UpsertRecord::Track { cover_path: cover_text(album@), song: album@.songs[i as int] },
        ));
        i += 1;
        assert(upserts_view(rows@) =~= before + seq![album_row(album@)] + track_rows(
            album@,
            i as int,
        ));
    }
    assert(upserts_view(rows@) =~= before + album_rows(album@));
}

/// The rows that commit `albums`, in the order in which they are written:
/// each album's row, followed by the rows of its tracks.
pub fn plan_commit(albums: &Vec<AlbumMetadata>) -> (rows: Vec<Upsert>)
    ensures
        upserts_view(rows@) == commit_plan(albums_view(albums@)),
        rows.len() == albums.len() + total_songs(albums_view(albums@)),
        count_album_rows(upserts_view(rows@)) == albums.len(),
{
    let mut rows: Vec<Upsert> = Vec::new();
    let mut i: usize = 0;
    assert(upserts_view(rows@) =~= commit_plan(albums_view(albums@.subrange(0, 0))));
    while i < albums.len()
        invariant
            i <= albums.len(),
            upserts_view(rows@) == commit_plan(albums_view(albums@.subrange(0, i as int))),
        decreases albums.len() - i,
    {
        let ghost next = albums_view(albums@.subrange(0, i + 1));
        assert(next.drop_last() =~= albums_view(albums@.subrange(0, i as int)));
        assert(next.last() == albums@[i as int]@);
        push_album_rows(&mut rows, &albums[i]);
        i += 1;
    }
    assert(albums@.subrange(0, i as int) =~= albums@);
    proof {
        lemma_commit_plan_counts(albums_view(albums@));
    }
    rows
}

} // verus!
