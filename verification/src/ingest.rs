//! Ingestion orchestrator: runs classification, extraction and aggregation
//! over the files of a walk, counts what was read and what was not, and
//! says which progress events to emit.
//!
//! The scan can be driven one file at a time through [`Ingestion`], by a
//! caller that reads each file as it goes, or in one call of
//! [`register_dir`] on files that have been read already.

use vstd::prelude::*;
use vstd::string::*;
use crate::album::{accept, album_key, albums_view, albums_wf, as_map, empty_grouping, flush,
    grouping_wf, lemma_find_key_is, opens_album, Aggregator, AlbumMetadata, AlbumRecord, Grouping};
use crate::classify::{count_audio, get_song_count, is_audio, is_audio_file, FsEntry};
use crate::cover::find_cover;
use crate::grouping::{aggregate, grouped, lemma_aggregate_wf, Arrival};
use crate::metadata::{extract, held_tag_view, song_metadata_from, SongMetadata, TagFields,
    TrackRecord};
use crate::progress::{summary, summary_text, Progress, ProgressEvent};

verus! {

/// One entry of a walk together with what was read of it.
#[derive(Debug)]
pub struct ScannedFile {
    /// The entry itself.
    pub entry: FsEntry,
    /// The file's tag, where one could be read.
    pub tag: Option<TagFields>,
    /// Length of the decoded stream in whole seconds, where it was decoded
    /// and has one.
    pub fallback: Option<u64>,
    /// The walk of the directory that holds the file, in which a cover is
    /// searched.
    pub listing: Vec<FsEntry>,
}

/// The state of a scan: the grouping so far and the two counts.
pub ghost struct ScanState {
    pub grouping: Grouping,
    pub successful: nat,
    pub failed: nat,
}

/// What a scan hands to the store and reports.
pub ghost struct Ingested {
    pub albums: Seq<AlbumRecord>,
    pub successful: nat,
    pub failed: nat,
}

/// The state before any file.
pub open spec fn initial_scan() -> ScanState {
    ScanState { grouping: empty_grouping(), successful: 0, failed: 0 }
}

/// The state after a track was read and registered.
pub open spec fn registered(s: ScanState, t: TrackRecord, cover: Option<Seq<char>>) -> ScanState {
    ScanState { grouping: accept(s.grouping, t, cover), successful: s.successful + 1, ..s }
}

/// The state after a file could not be read.
pub open spec fn unread(s: ScanState) -> ScanState {
    ScanState { failed: s.failed + 1, ..s }
}

/// The record made of a scanned file, or why there is none.
pub open spec fn extracted(f: ScannedFile) -> Result<TrackRecord, crate::metadata::ExtractionError> {
    extract(f.entry@, held_tag_view(f.tag), f.fallback)
}

/// The state after one more file of the walk: unchanged for an entry that is
/// no audio file; else with the file's track registered, or one more failure.
pub open spec fn scan_step(s: ScanState, f: ScannedFile) -> ScanState {
    if !is_audio(f.entry@) {
        s
    } else {
        match extracted(f) {
            Ok(t) => registered(s, t, find_cover(f.listing@, t.album_title)),
            Err(_) => unread(s),
        }
    }
}

/// The state after all of `files`, in order.
pub open spec fn scan(files: Seq<ScannedFile>) -> ScanState
    decreases files.len(),
{
    if files.len() == 0 {
        initial_scan()
    } else {
        scan_step(scan(files.drop_last()), files.last())
    }
}

/// What a scan that ends in state `s` hands over: every album, the open one
/// sealed too, with the counts.
pub open spec fn outcome(s: ScanState) -> Ingested {
    Ingested { albums: flush(s.grouping), successful: s.successful, failed: s.failed }
}

/// The entries of scanned files.
pub open spec fn scanned_entries(files: Seq<ScannedFile>) -> Seq<FsEntry> {
    Seq::new(files.len(), |i: int| files[i].entry)
}

/// The event that reports a file of the walk: one for a file that is
/// registered, none for any other.
pub open spec fn step_event(f: ScannedFile) -> Option<Progress> {
    if is_audio(f.entry@) && extracted(f) is Ok {
        Some(Progress::SongRegistered(f.entry.path@))
    } else {
        None
    }
}

/// Value of an event where there is one.
pub open spec fn event_view(e: Option<ProgressEvent>) -> Option<Progress> {
    match e {
        Some(x) => Some(x@),
        None => None,
    }
}

/// The events that report the registered files, in the order of the walk.
pub open spec fn registered_events(files: Seq<ScannedFile>) -> Seq<Progress>
    decreases files.len(),
{
    if files.len() == 0 {
        Seq::empty()
    } else {
        let before = registered_events(files.drop_last());
        match step_event(files.last()) {
            Some(e) => before.push(e),
            None => before,
        }
    }
}

/// The events of a scan: first the number of audio files, then one event
/// for each registered file, in the order of the walk.
pub open spec fn scan_events(files: Seq<ScannedFile>) -> Seq<Progress> {
    seq![Progress::TotalSongs(count_audio(scanned_entries(files)))] + registered_events(files)
}

/// The tracks that a scan registers, each with its resolved cover, in the
/// order of the walk.
pub open spec fn arrivals_of(files: Seq<ScannedFile>) -> Seq<Arrival>
    decreases files.len(),
{
    if files.len() == 0 {
        Seq::empty()
    } else {
        let before = arrivals_of(files.drop_last());
        let f = files.last();
        if is_audio(f.entry@) && extracted(f) is Ok {
            let t = extracted(f)->Ok_0;
            before.push(Arrival { track: t, cover: find_cover(f.listing@, t.album_title) })
        } else {
            before
        }
    }
}

/// Every audio file of a walk is counted once, as registered or as unread:
/// the two counts of a scan add up to the number of audio files.
pub proof fn lemma_counts_add_up(files: Seq<ScannedFile>)
    ensures
        scan(files).successful + scan(files).failed == count_audio(scanned_entries(files)),
    decreases files.len(),
{
    if files.len() > 0 {
        lemma_counts_add_up(files.drop_last());
        let entries = scanned_entries(files);
        assert(entries.drop_last() =~= scanned_entries(files.drop_last()));
        assert(entries.last() == files.last().entry);
    }
}

/// The events of a scan come in order: the count of audio files first, then
/// one event for each registered file and no other.
pub proof fn lemma_events_in_order(files: Seq<ScannedFile>)
    ensures
        scan_events(files).len() == 1 + scan(files).successful,
        scan_events(files)[0] is TotalSongs,
        forall|i: int| 1 <= i < scan_events(files).len() ==> #[trigger] scan_events(files)[i]
            is SongRegistered,
{
    lemma_registered_events(files);
    assert forall|i: int| 1 <= i < scan_events(files).len() implies #[trigger] scan_events(
        files,
    )[i] is SongRegistered by {
        assert(scan_events(files)[i] == registered_events(files)[i - 1]);
    }
}

/// Each registered file has its event, and there is no other.
pub proof fn lemma_registered_events(files: Seq<ScannedFile>)
    ensures
        registered_events(files).len() == scan(files).successful,
        forall|i: int| 0 <= i < registered_events(files).len() ==> #[trigger] registered_events(
            files,
        )[i] is SongRegistered,
    decreases files.len(),
{
    if files.len() > 0 {
        lemma_registered_events(files.drop_last());
    }
}

/// A scan groups exactly the tracks that it registers, in the order of the
/// walk, and its albums are well formed.
pub proof fn lemma_scan_groups_arrivals(files: Seq<ScannedFile>)
    ensures
        scan(files).grouping == aggregate(arrivals_of(files)),
        scan(files).successful == arrivals_of(files).len(),
        grouping_wf(scan(files).grouping),
        albums_wf(outcome(scan(files)).albums),
    decreases files.len(),
{
    if files.len() > 0 {
        lemma_scan_groups_arrivals(files.drop_last());
        let f = files.last();
        if is_audio(f.entry@) && extracted(f) is Ok {
            assert(arrivals_of(files).drop_last() =~= arrivals_of(files.drop_last()));
        }
    }
    lemma_aggregate_wf(arrivals_of(files));
}

/// A scan in progress.
#[derive(Debug)]
pub struct Ingestion {
    /// The grouping of the tracks registered so far.
    pub albums: Aggregator,
    /// Number of files read and registered.
    pub successful: usize,
    /// Number of audio files that could not be read.
    pub failed: usize,
}

impl View for Ingestion {
    type V = ScanState;

    open spec fn view(&self) -> ScanState {
        ScanState {
            grouping: self.albums@,
            successful: self.successful as nat,
            failed: self.failed as nat,
        }
    }
}

/// The result of a scan: its albums and its two counts.
#[derive(Debug)]
pub struct IngestionResult {
    /// The albums, no two with the same title and artist.
    pub albums: Vec<AlbumMetadata>,
    /// Number of files read and registered.
    pub successful: usize,
    /// Number of audio files that could not be read.
    pub failed: usize,
}

impl View for IngestionResult {
    type V = Ingested;

    open spec fn view(&self) -> Ingested {
        Ingested {
            albums: albums_view(self.albums@),
            successful: self.successful as nat,
            failed: self.failed as nat,
        }
    }
}

impl IngestionResult {
    /// The album with the given title and artist, where the scan found one.
    pub fn album(&self, title: &str, artist: &str) -> (r: Option<&AlbumMetadata>)
        ensures
            match r {
                Some(a) => as_map(self@.albums).contains_pair((title@, artist@), a@),
                None => !as_map(self@.albums).dom().contains((title@, artist@)),
            },
    {
        let ghost albums = self@.albums;
        let ghost key = (title@, artist@);
        let wanted_title = String::from_str(title);
        let wanted_artist = String::from_str(artist);
        let mut i: usize = 0;
        while i < self.albums.len()
            invariant
                i <= self.albums.len(),
                albums == albums_view(self.albums@),
                key == (title@, artist@),
                key == (wanted_title@, wanted_artist@),
                forall|j: int| 0 <= j < i ==> album_key(#[trigger] albums[j]) != key,
            decreases self.albums.len() - i,
        {
            assert(albums[i as int] == self.albums@[i as int]@);
            let found = &self.albums[i];
            if found.title == wanted_title && found.artist == wanted_artist {
                proof {
                    lemma_find_key_is(albums, key, i as int);
                }
                return Some(found);
            }
            i += 1;
        }
        proof {
            lemma_find_key_is(albums, key, albums.len() as int);
        }
        None
    }

    /// The sentence that reports the scan.
    pub fn summary(&self) -> (r: String)
        ensures
            r@ == summary_text(self@.successful, self@.failed),
    {
        summary(self.successful, self.failed)
    }
}

/// How a scan ended.
#[derive(Debug)]
pub enum ScanOutcome {
    /// Every file was seen; the result is ready for the store.
    Completed(IngestionResult),
    /// The scan was called off; there is nothing to store.
    Cancelled,
}

/// What a scan in state `s` hands over at its end: nothing where it was
/// called off, else its outcome.
pub open spec fn ended(s: ScanState, cancelled: bool) -> Option<Ingested> {
    if cancelled {
        None
    } else {
        Some(outcome(s))
    }
}

/// What an ended scan handed over.
pub open spec fn handed_over(o: ScanOutcome) -> Option<Ingested> {
    match o {
        ScanOutcome::Completed(r) => Some(r@),
        ScanOutcome::Cancelled => None,
    }
}

impl Ingestion {
    /// Starts a scan of a walk: counts its audio files and says which event
    /// announces the count, before any file is read.
    pub fn start(walk: &Vec<FsEntry>) -> (r: (Self, ProgressEvent))
        ensures
            r.0@ == initial_scan(),
            grouping_wf(r.0@.grouping),
            r.1@ == Progress::TotalSongs(count_audio(walk@)),
    {
        (Ingestion::new(), ProgressEvent::TotalSongs(get_song_count(walk)))
    }

    /// A scan that has seen no file.
    pub fn new() -> (r: Self)
        ensures
            r@ == initial_scan(),
            grouping_wf(r@.grouping),
    {
        Ingestion { albums: Aggregator::new(), successful: 0, failed: 0 }
    }

    /// Whether registering `meta` would open a new album, so that the walk of
    /// its directory is needed to search a cover in.
    pub fn needs_cover(&self, meta: &SongMetadata) -> (r: bool)
        ensures
            r == opens_album(self@.grouping.current, meta@),
    {
        self.albums.opens_album(meta)
    }

    /// Registers a track that was read, and says which event reports it.
    /// `listing` is read only where the track opens a new album.
    pub fn register(&mut self, meta: SongMetadata, listing: &Vec<FsEntry>) -> (event:
        ProgressEvent)
        requires
            old(self).successful < usize::MAX,
        ensures
            final(self)@ == registered(
                old(self)@,
                meta@,
                find_cover(listing@, meta@.album_title),
            ),
            event@ == Progress::SongRegistered(meta@.file_path),
            grouping_wf(old(self)@.grouping) ==> grouping_wf(final(self)@.grouping),
    {
        let path = meta.file_path.clone();
        self.albums.push(meta, listing);
        self.successful += 1;
        ProgressEvent::SongRegistered(path)
    }

    /// Takes the next file of the walk with what was read of it: passes over
    /// an entry that is no audio file, registers the file's track, or counts
    /// the file as unread where no record can be made of it. Returns the
    /// event to emit, if the file was registered.
    pub fn step(&mut self, file: &ScannedFile) -> (event: Option<ProgressEvent>)
        requires
            old(self).successful < usize::MAX,
            old(self).failed < usize::MAX,
        ensures
            final(self)@ == scan_step(old(self)@, *file),
            event_view(event) == step_event(*file),
            grouping_wf(old(self)@.grouping) ==> grouping_wf(final(self)@.grouping),
    {
        if !is_audio_file(&file.entry) {
            return None;
        }
        match song_metadata_from(&file.entry, file.tag.as_ref(), file.fallback) {
            Ok(meta) => Some(self.register(meta, &file.listing)),
            Err(_) => {
                self.fail();
                None
            },
        }
    }

    /// Counts an audio file that could not be read.
    pub fn fail(&mut self)
        requires
            old(self).failed < usize::MAX,
        ensures
            final(self)@ == unread(old(self)@),
    {
        self.failed += 1;
    }

    /// Ends the scan. Where it was called off, nothing of it is handed out;
    /// else the open album is sealed and the result handed out.
    pub fn end(self, cancelled: bool) -> (r: ScanOutcome)
        ensures
            handed_over(r) == ended(self@, cancelled),
            !cancelled && grouping_wf(self@.grouping) ==> albums_wf(handed_over(r)->0.albums),
    {
        if cancelled {
            ScanOutcome::Cancelled
        } else {
            ScanOutcome::Completed(self.finish())
        }
    }

    /// Ends the scan: seals the open album and hands out the result.
    pub fn finish(self) -> (r: IngestionResult)
        ensures
            r@ == outcome(self@),
            grouping_wf(self@.grouping) ==> albums_wf(r@.albums),
    {
        let successful = self.successful;
        let failed = self.failed;
        let albums = self.albums.finish();
        IngestionResult { albums, successful, failed }
    }
}

/// The answer to the caller once the store has been written to: the scan's
/// summary where the commit went through, else the commit's error, with
/// nothing said of the counts.
pub fn conclude(result: &IngestionResult, commit: Result<(), String>) -> (r: Result<
    String,
    String,
>)
    ensures
        match commit {
            Ok(_) => r is Ok && r->Ok_0@ == summary_text(result@.successful, result@.failed),
            Err(e) => r is Err && r->Err_0@ == e@,
        },
{
    match commit {
        Ok(_) => Ok(result.summary()),
        Err(e) => Err(e),
    }
}

/// The answer to the caller of a scan that was called off.
pub fn cancelled_summary() -> (r: String)
    ensures
        r@ == "Scan cancelled"@,
{
    String::from_str("Scan cancelled")
}

/// Values of a sequence of events.
pub open spec fn events_view(events: Seq<ProgressEvent>) -> Seq<Progress> {
    Seq::new(events.len(), |i: int| events[i]@)
}

/// Scans the files of a walk, in order. Entries that are no audio files are
/// passed over; each audio file is registered, or counted as unread where no
/// record can be made of it. Returns the albums with the two counts, and the
/// progress events in the order in which they are to be emitted. A track
/// stays counted and reported as registered also where its album is later
/// replaced by one whose title and artist come again.
pub fn register_dir(files: &Vec<ScannedFile>) -> (r: (IngestionResult, Vec<ProgressEvent>))
    ensures
        r.0@ == outcome(scan(files@)),
        events_view(r.1@) == scan_events(files@),
        r.0.successful + r.0.failed == count_audio(scanned_entries(files@)),
        r.0@.albums == grouped(arrivals_of(files@)),
        albums_wf(r.0@.albums),
{
    // The announced number is filled in at the end: it is the number of files that
    // the scan has counted, one way or the other.
    let mut events: Vec<ProgressEvent> = Vec::new();
    events.push(ProgressEvent::TotalSongs(0));
    let mut state = Ingestion::new();
    let mut i: usize = 0;
    assert(events_view(events@) =~= seq![Progress::TotalSongs(0)] + registered_events(
        files@.subrange(0, 0),
    ));
    while i < files.len()
        invariant
            i <= files.len(),
            state@ == scan(files@.subrange(0, i as int)),
            state.successful + state.failed <= i,
            grouping_wf(state@.grouping),
            events_view(events@) == seq![Progress::TotalSongs(0)] + registered_events(
                files@.subrange(0, i as int),
            ),
        decreases files.len() - i,
    {
        let ghost before = files@.subrange(0, i as int);
        let ghost next = files@.subrange(0, i + 1);
        let ghost shown = events_view(events@);
        assert(next.drop_last() =~= before);
        assert(next.last() == files@[i as int]);
        match state.step(&files[i]) {
            Some(event) => {
                events.push(event);
                assert(events_view(events@) =~= shown.push(step_event(files@[i as int])->0));
                assert(events_view(events@) =~= seq![Progress::TotalSongs(0)]
                    + registered_events(next));
            },
            None => {},
        }
        i += 1;
    }
    assert(files@.subrange(0, i as int) =~= files@);
    proof {
        lemma_counts_add_up(files@);
        lemma_scan_groups_arrivals(files@);
    }
    let total: usize = state.successful + state.failed;
    let ghost shown = events_view(events@);
    events.set(0, ProgressEvent::TotalSongs(total));
    assert(events_view(events@) =~= scan_events(files@)) by {
        assert(events_view(events@) =~= shown.update(0, Progress::TotalSongs(total as nat)));
    }
    (state.finish(), events)
}

} // verus!
