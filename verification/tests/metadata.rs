use music_library::classify::FsEntry;
use music_library::metadata::{
    get_song_metadata, leading_track_number, needs_stream, seconds_from_tag, song_metadata_from,
    song_metadata_if_read, ExtractionError, SongMetadata, TagFields,
};

fn entry(dir: &str, name: &str) -> FsEntry {
    FsEntry {
        path: format!("{}/{}", dir, name),
        parent_dir: Some(dir.to_string()),
        file_name: Some(name.to_string()),
        is_file: true,
    }
}

fn empty_tag() -> TagFields {
    TagFields {
        title: None,
        artist: None,
        album_title: None,
        album_artist: None,
        track_number: None,
        disc_number: None,
        duration: None,
        year: None,
        genre: None,
    }
}

fn full_tag() -> TagFields {
    TagFields {
        title: Some("Song".to_string()),
        artist: Some("Singer".to_string()),
        album_title: Some("Album".to_string()),
        album_artist: Some("Band".to_string()),
        track_number: Some(3),
        disc_number: Some(2),
        duration: Some(215_000),
        year: Some(1999),
        genre: Some("Rock".to_string()),
    }
}

fn wav(seconds: u32) -> Vec<u8> {
    let rate: u32 = 8000;
    let data_len: u32 = rate * seconds * 2;
    let mut out: Vec<u8> = Vec::new();
    out.extend_from_slice(b"RIFF");
    out.extend_from_slice(&(36 + data_len).to_le_bytes());
    out.extend_from_slice(b"WAVE");
    out.extend_from_slice(b"fmt ");
    out.extend_from_slice(&16u32.to_le_bytes());
    out.extend_from_slice(&1u16.to_le_bytes());
    out.extend_from_slice(&1u16.to_le_bytes());
    out.extend_from_slice(&rate.to_le_bytes());
    out.extend_from_slice(&(rate * 2).to_le_bytes());
    out.extend_from_slice(&2u16.to_le_bytes());
    out.extend_from_slice(&16u16.to_le_bytes());
    out.extend_from_slice(b"data");
    out.extend_from_slice(&data_len.to_le_bytes());
    out.resize(out.len() + data_len as usize, 0);
    out
}

#[test]
fn duration_under_ten_seconds_in_millis_is_kept_as_written() {
    assert_eq!(seconds_from_tag(5000), 5000);
}

#[test]
fn duration_threshold_is_ten_thousand() {
    assert_eq!(seconds_from_tag(9999), 9999);
    assert_eq!(seconds_from_tag(10_000), 10);
    assert_eq!(seconds_from_tag(10_999), 10);
    assert_eq!(seconds_from_tag(215_000), 215);
    assert_eq!(seconds_from_tag(0), 0);
    assert_eq!(seconds_from_tag(180), 180);
    assert_eq!(seconds_from_tag(u64::MAX), u64::MAX / 1000);
}

#[test]
fn track_number_is_read_from_file_name() {
    let record = song_metadata_from(&entry("/m", "07 - Song.mp3"), Some(&empty_tag()), None).unwrap();
    assert_eq!(record.track_number, 7);
}

#[test]
fn leading_number_reads_two_characters() {
    assert_eq!(leading_track_number("07 - Song.mp3"), Some(7));
    assert_eq!(leading_track_number("12.mp3"), Some(12));
    assert_eq!(leading_track_number("99"), Some(99));
    assert_eq!(leading_track_number("00x"), Some(0));
    assert_eq!(leading_track_number("123"), Some(12));
    assert_eq!(leading_track_number("7"), Some(7));
    assert_eq!(leading_track_number("+7"), Some(7));
    assert_eq!(leading_track_number("+"), None);
    assert_eq!(leading_track_number("7 "), None);
    assert_eq!(leading_track_number("7-"), None);
    assert_eq!(leading_track_number("-7"), None);
    assert_eq!(leading_track_number(" 7"), None);
    assert_eq!(leading_track_number("a1"), None);
    assert_eq!(leading_track_number("1a"), None);
    assert_eq!(leading_track_number("++"), None);
    assert_eq!(leading_track_number("é1"), None);
    assert_eq!(leading_track_number(""), None);
}

#[test]
fn leading_number_agrees_with_decimal_parsing() {
    for name in ["07 - Song.mp3", "+7x", "7", "+", "1a", "a1", "99", "", "-1", "٣٣", "0"] {
        let head: String = name.chars().take(2).collect();
        assert_eq!(leading_track_number(name), head.parse::<u16>().ok(), "{:?}", name);
    }
}

#[test]
fn unparseable_file_name_gives_track_zero() {
    let record = song_metadata_from(&entry("/m", "Song.mp3"), Some(&empty_tag()), None).unwrap();
    assert_eq!(record.track_number, 0);
}

#[test]
fn tag_track_number_wins_over_file_name() {
    let tag = TagFields { track_number: Some(3), ..empty_tag() };
    let record = song_metadata_from(&entry("/m", "07 - Song.mp3"), Some(&tag), None).unwrap();
    assert_eq!(record.track_number, 3);
}

#[test]
fn empty_tag_gets_every_default() {
    let record = song_metadata_from(&entry("/m/a", "x.mp3"), Some(&empty_tag()), None).unwrap();
    assert_eq!(
        record,
        SongMetadata {
            parent_dir: "/m/a".to_string(),
            file_path: "/m/a/x.mp3".to_string(),
            title: "x.mp3".to_string(),
            artist: "Unknown".to_string(),
            album_title: "Unknown".to_string(),
            album_artist: "Unknown".to_string(),
            track_number: 0,
            disc_number: 0,
            duration: 0,
            year: 0,
            genre: String::new(),
        }
    );
}

#[test]
fn full_tag_is_taken_over() {
    let record = song_metadata_from(&entry("/m/a", "x.mp3"), Some(&full_tag()), Some(77)).unwrap();
    assert_eq!(
        record,
        SongMetadata {
            parent_dir: "/m/a".to_string(),
            file_path: "/m/a/x.mp3".to_string(),
            title: "Song".to_string(),
            artist: "Singer".to_string(),
            album_title: "Album".to_string(),
            album_artist: "Band".to_string(),
            track_number: 3,
            disc_number: 2,
            duration: 215,
            year: 1999,
            genre: "Rock".to_string(),
        }
    );
}

#[test]
fn album_artist_defaults_to_artist() {
    let tag = TagFields { artist: Some("Singer".to_string()), ..empty_tag() };
    let record = song_metadata_from(&entry("/m", "x.mp3"), Some(&tag), None).unwrap();
    assert_eq!(record.artist, "Singer");
    assert_eq!(record.album_artist, "Singer");
}

#[test]
fn fallback_duration_is_used_only_without_tag_duration() {
    let record = song_metadata_from(&entry("/m", "x.mp3"), Some(&empty_tag()), Some(42)).unwrap();
    assert_eq!(record.duration, 42);
    let tag = TagFields { duration: Some(5000), ..empty_tag() };
    let record = song_metadata_from(&entry("/m", "x.mp3"), Some(&tag), Some(42)).unwrap();
    assert_eq!(record.duration, 5000);
}

#[test]
fn unavailable_duration_counts_as_zero() {
    let record = song_metadata_from(&entry("/m", "x.mp3"), Some(&empty_tag()), None).unwrap();
    assert_eq!(record.duration, 0);
}

#[test]
fn missing_tag_is_unreadable() {
    assert_eq!(
        song_metadata_from(&entry("/m", "x.mp3"), None, Some(3)),
        Err(ExtractionError::UnreadableTag)
    );
}

#[test]
fn missing_file_name_is_reported_first() {
    let e = FsEntry { path: "/".to_string(), parent_dir: None, file_name: None, is_file: true };
    assert_eq!(song_metadata_from(&e, None, None), Err(ExtractionError::MissingFileName));
    assert_eq!(
        song_metadata_from(&e, Some(&full_tag()), None),
        Err(ExtractionError::MissingFileName)
    );
}

#[test]
fn missing_parent_is_reported_before_the_tag() {
    let e = FsEntry {
        path: "x.mp3".to_string(),
        parent_dir: None,
        file_name: Some("x.mp3".to_string()),
        is_file: true,
    };
    assert_eq!(song_metadata_from(&e, None, None), Err(ExtractionError::MissingParentDir));
    assert_eq!(
        song_metadata_from(&e, Some(&full_tag()), None),
        Err(ExtractionError::MissingParentDir)
    );
}

#[test]
fn stream_is_decoded_where_the_tag_has_no_duration() {
    let record = get_song_metadata(&entry("/m", "x.wav"), Some(&empty_tag()), wav(4)).unwrap();
    assert_eq!(record.duration, 4);
}

#[test]
fn stream_is_not_consulted_where_the_tag_has_a_duration() {
    let tag = TagFields { duration: Some(61_000), ..empty_tag() };
    let record = get_song_metadata(&entry("/m", "x.wav"), Some(&tag), wav(4)).unwrap();
    assert_eq!(record.duration, 61);
}

#[test]
fn stream_that_the_decoder_is_not_handed_leaves_the_record_open() {
    assert_eq!(song_metadata_if_read(&entry("/m", "x.mp3"), Some(&empty_tag()), vec![0, 1, 2]), None);
    let record = song_metadata_from(&entry("/m", "x.mp3"), Some(&empty_tag()), Some(7)).unwrap();
    assert_eq!(record.duration, 7);
}

#[test]
fn record_is_made_where_the_stream_is_not_needed_or_is_read() {
    let tag = TagFields { duration: Some(61_000), ..empty_tag() };
    let with_tag = song_metadata_if_read(&entry("/m", "x.mp3"), Some(&tag), vec![0, 1, 2]);
    assert_eq!(with_tag.unwrap().unwrap().duration, 61);
    let decoded = song_metadata_if_read(&entry("/m", "x.wav"), Some(&empty_tag()), wav(4));
    assert_eq!(decoded.unwrap().unwrap().duration, 4);
    assert_eq!(
        song_metadata_if_read(&entry("/m", "x.mp3"), None, vec![0, 1, 2]),
        Some(Err(ExtractionError::UnreadableTag))
    );
}

#[test]
fn unreadable_tag_fails_whatever_the_stream() {
    assert_eq!(
        get_song_metadata(&entry("/m", "x.wav"), None, wav(4)),
        Err(ExtractionError::UnreadableTag)
    );
}

#[test]
fn song_clone_is_equal() {
    let record = song_metadata_from(&entry("/m", "x.mp3"), Some(&full_tag()), None).unwrap();
    assert_eq!(record.clone(), record);
}

#[test]
fn stream_is_needed_only_for_a_tag_without_duration() {
    assert!(needs_stream(Some(&empty_tag())));
    assert!(!needs_stream(Some(&full_tag())));
    assert!(!needs_stream(None));
}

#[test]
fn stream_with_sample_rate_zero_is_left_to_the_caller() {
    let mut data = wav(4);
    data[24..28].copy_from_slice(&0u32.to_le_bytes());
    assert_eq!(song_metadata_if_read(&entry("/m", "x.wav"), Some(&empty_tag()), data), None);
}
