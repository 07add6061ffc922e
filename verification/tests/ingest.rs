use music_library::classify::{get_song_count, FsEntry};
use music_library::ingest::{
    cancelled_summary, conclude, register_dir, Ingestion, IngestionResult, ScanOutcome, ScannedFile,
};
use music_library::metadata::{song_metadata_from, TagFields};
use music_library::persist::{plan_commit, Upsert};
use music_library::progress::ProgressEvent;

fn entry(dir: &str, name: &str) -> FsEntry {
    FsEntry {
        path: format!("{}/{}", dir, name),
        parent_dir: Some(dir.to_string()),
        file_name: Some(name.to_string()),
        is_file: true,
    }
}

fn tag(title: &str, album: &str, artist: &str) -> TagFields {
    TagFields {
        title: Some(title.to_string()),
        artist: Some(artist.to_string()),
        album_title: Some(album.to_string()),
        album_artist: None,
        track_number: None,
        disc_number: None,
        duration: Some(200_000),
        year: Some(2010),
        genre: None,
    }
}

fn scanned(dir: &str, name: &str, tag: Option<TagFields>) -> ScannedFile {
    ScannedFile { entry: entry(dir, name), tag, fallback: None, listing: Vec::new() }
}

fn album_rows(rows: &Vec<Upsert>) -> usize {
    rows.iter().filter(|r| matches!(r, Upsert::Album { .. })).count()
}

fn track_rows(rows: &Vec<Upsert>) -> usize {
    rows.iter().filter(|r| matches!(r, Upsert::Track { .. })).count()
}

#[test]
fn three_files_in_two_albums() {
    let files = vec![
        scanned("/m/a", "01.mp3", Some(tag("one", "A", "X"))),
        scanned("/m/a", "02.mp3", Some(tag("two", "A", "X"))),
        scanned("/m/b", "01.mp3", Some(tag("three", "B", "X"))),
    ];
    let (result, events) = register_dir(&files);
    assert_eq!(result.albums.len(), 2);
    assert_eq!(result.album("A", "X").map(|a| a.songs.len()), Some(2));
    assert_eq!(result.album("B", "X").map(|a| a.songs.len()), Some(1));
    assert!(result.album("A", "Y").is_none());
    assert!(result.album("C", "X").is_none());
    assert_eq!(result.albums[0].title, "A");
    assert_eq!(result.albums[0].artist, "X");
    assert_eq!(result.albums[0].songs.len(), 2);
    assert_eq!(result.albums[1].title, "B");
    assert_eq!(result.albums[1].songs.len(), 1);
    assert_eq!(result.successful, 3);
    assert_eq!(result.failed, 0);
    assert_eq!(events.len(), 4);
    let rows = plan_commit(&result.albums);
    assert_eq!(album_rows(&rows), 2);
    assert_eq!(track_rows(&rows), 3);
    assert_eq!(rows.len(), 5);
    assert_eq!(result.summary(), "Registered 3 songs");
}

#[test]
fn one_corrupt_file_among_five() {
    let files = vec![
        scanned("/m/a", "01.mp3", Some(tag("1", "A", "X"))),
        scanned("/m/a", "02.mp3", Some(tag("2", "A", "X"))),
        scanned("/m/a", "03.mp3", None),
        scanned("/m/a", "04.mp3", Some(tag("4", "A", "X"))),
        scanned("/m/a", "05.mp3", Some(tag("5", "A", "X"))),
    ];
    let (result, _) = register_dir(&files);
    assert_eq!(result.successful, 4);
    assert_eq!(result.failed, 1);
    assert_eq!(result.summary(), "Registered 4 songs, 1 could not be read");
    assert_eq!(result.albums.len(), 1);
    assert_eq!(result.albums[0].songs.len(), 4);
}

#[test]
fn counts_add_up_to_the_audio_files() {
    let files = vec![
        ScannedFile { entry: FsEntry { is_file: false, ..entry("/", "m") }, tag: None, fallback: None, listing: Vec::new() },
        scanned("/m", "01.mp3", Some(tag("1", "A", "X"))),
        scanned("/m", "cover.jpg", None),
        scanned("/m", "02.flac", None),
        scanned("/m", "notes.txt", Some(tag("n", "A", "X"))),
        scanned("/m", "03.ogg", Some(tag("3", "B", "Y"))),
        scanned("/m", "04.wav", None),
    ];
    let entries: Vec<FsEntry> = files.iter().map(|f| f.entry.clone()).collect();
    let (result, events) = register_dir(&files);
    assert_eq!(result.successful, 2);
    assert_eq!(result.failed, 2);
    assert_eq!(result.successful + result.failed, get_song_count(&entries));
    assert_eq!(events[0], ProgressEvent::TotalSongs(4));
}

#[test]
fn events_follow_the_walk() {
    let files = vec![
        scanned("/m", "01.mp3", Some(tag("1", "A", "X"))),
        scanned("/m", "readme.md", None),
        scanned("/m", "02.mp3", None),
        scanned("/m", "03.mp3", Some(tag("3", "A", "X"))),
    ];
    let (_, events) = register_dir(&files);
    assert_eq!(
        events,
        vec![
            ProgressEvent::TotalSongs(3),
            ProgressEvent::SongRegistered("/m/01.mp3".to_string()),
            ProgressEvent::SongRegistered("/m/03.mp3".to_string()),
        ]
    );
}

#[test]
fn empty_walk_registers_nothing() {
    let (result, events) = register_dir(&Vec::new());
    assert!(result.albums.is_empty());
    assert_eq!(result.successful, 0);
    assert_eq!(result.failed, 0);
    assert_eq!(events, vec![ProgressEvent::TotalSongs(0)]);
    assert_eq!(result.summary(), "Registered 0 songs");
    assert!(plan_commit(&result.albums).is_empty());
}

#[test]
fn decoded_length_and_cover_reach_the_album() {
    let mut first = scanned("/m/a", "07 - Song.mp3", Some(TagFields { duration: None, ..tag("s", "A", "X") }));
    first.fallback = Some(33);
    first.listing = vec![entry("/m/a", "07 - Song.mp3"), entry("/m/a", "folder.jpg")];
    let (result, _) = register_dir(&vec![first]);
    assert_eq!(result.albums[0].cover_path, Some("/m/a/folder.jpg".to_string()));
    assert_eq!(result.albums[0].songs[0].duration, 33);
    assert_eq!(result.albums[0].songs[0].track_number, 7);
    assert_eq!(result.albums[0].year, 2010);
}

#[test]
fn stepwise_scan_agrees_with_the_whole() {
    let files = vec![
        scanned("/m/a", "01.mp3", Some(tag("1", "A", "X"))),
        scanned("/m/a", "02.mp3", None),
        scanned("/m/b", "01.mp3", Some(tag("3", "B", "X"))),
    ];
    let mut scan = Ingestion::new();
    let mut events = Vec::new();
    for f in &files {
        match song_metadata_from(&f.entry, f.tag.as_ref(), f.fallback) {
            Ok(meta) => {
                let opens = scan.needs_cover(&meta);
                assert_eq!(opens, true);
                events.push(scan.register(meta, &f.listing));
            }
            Err(_) => scan.fail(),
        }
    }
    let stepwise = scan.finish();
    let (whole, whole_events) = register_dir(&files);
    assert_eq!(stepwise.albums, whole.albums);
    assert_eq!(stepwise.successful, whole.successful);
    assert_eq!(stepwise.failed, whole.failed);
    assert_eq!(events[..], whole_events[1..]);
}

#[test]
fn commit_failure_replaces_the_summary() {
    let result = IngestionResult { albums: Vec::new(), successful: 4, failed: 1 };
    assert_eq!(conclude(&result, Ok(())), Ok("Registered 4 songs, 1 could not be read".to_string()));
    assert_eq!(
        conclude(&result, Err("database is locked".to_string())),
        Err("database is locked".to_string())
    );
}

#[test]
fn start_announces_the_number_of_audio_files() {
    let walk = vec![
        entry("/m", "01.mp3"),
        entry("/m", "cover.jpg"),
        entry("/m", "02.flac"),
        FsEntry { is_file: false, ..entry("/m", "live.ogg") },
    ];
    let (scan, event) = Ingestion::start(&walk);
    assert_eq!(event, ProgressEvent::TotalSongs(2));
    assert_eq!(scan.successful, 0);
    assert_eq!(scan.failed, 0);
    assert!(scan.finish().albums.is_empty());
}

#[test]
fn cancelled_scan_hands_nothing_over() {
    let (mut scan, _) = Ingestion::start(&Vec::new());
    let meta = song_metadata_from(&entry("/m", "01.mp3"), Some(&tag("1", "A", "X")), None).unwrap();
    scan.register(meta, &Vec::new());
    assert!(matches!(scan.end(true), ScanOutcome::Cancelled));
    assert_eq!(cancelled_summary(), "Scan cancelled");
}

#[test]
fn completed_scan_hands_its_result_over() {
    let (mut scan, _) = Ingestion::start(&Vec::new());
    let meta = song_metadata_from(&entry("/m", "01.mp3"), Some(&tag("1", "A", "X")), None).unwrap();
    scan.register(meta, &Vec::new());
    scan.fail();
    match scan.end(false) {
        ScanOutcome::Completed(result) => {
            assert_eq!(result.albums.len(), 1);
            assert_eq!(result.successful, 1);
            assert_eq!(result.failed, 1);
        }
        ScanOutcome::Cancelled => panic!("the scan was not called off"),
    }
}

#[test]
fn run_of_one_album_lands_in_one_record() {
    let files = vec![
        scanned("/m/a", "01.mp3", Some(tag("1", "A", "X"))),
        scanned("/m/b", "01.mp3", Some(tag("2", "B", "X"))),
        scanned("/m/b", "02.mp3", Some(tag("3", "B", "X"))),
        scanned("/m/b", "03.mp3", Some(tag("4", "B", "X"))),
        scanned("/m/c", "01.mp3", Some(tag("5", "C", "X"))),
    ];
    let (result, _) = register_dir(&files);
    let holding: Vec<&str> = result
        .albums
        .iter()
        .filter(|a| a.songs.iter().any(|s| s.album_title == "B"))
        .map(|a| a.title.as_str())
        .collect();
    assert_eq!(holding, vec!["B"]);
    let b = result.album("B", "X").unwrap();
    let paths: Vec<&str> = b.songs.iter().map(|s| s.file_path.as_str()).collect();
    assert_eq!(paths, vec!["/m/b/01.mp3", "/m/b/02.mp3", "/m/b/03.mp3"]);
    assert_eq!(b.location_on_disk, "/m/b");
}

#[test]
fn step_takes_one_file_at_a_time() {
    let (mut scan, _) = Ingestion::start(&Vec::new());
    let registered = scan.step(&scanned("/m/a", "01.mp3", Some(tag("1", "A", "X"))));
    assert_eq!(registered, Some(ProgressEvent::SongRegistered("/m/a/01.mp3".to_string())));
    assert_eq!(scan.step(&scanned("/m/a", "cover.jpg", Some(tag("c", "A", "X")))), None);
    assert_eq!((scan.successful, scan.failed), (1, 0));
    assert_eq!(scan.step(&scanned("/m/a", "02.mp3", None)), None);
    assert_eq!((scan.successful, scan.failed), (1, 1));
    let result = scan.finish();
    assert_eq!(result.albums.len(), 1);
    assert_eq!(result.albums[0].songs.len(), 1);
}
