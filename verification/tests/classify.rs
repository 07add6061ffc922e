use music_library::classify::{extension_start, get_song_count, is_audio_file, name_is_audio, FsEntry};
use music_library::text::{chars_of, find_last_dot, lowered, lowered_range_is, range_is, to_lower};

fn file(dir: &str, name: &str) -> FsEntry {
    FsEntry {
        path: format!("{}/{}", dir, name),
        parent_dir: Some(dir.to_string()),
        file_name: Some(name.to_string()),
        is_file: true,
    }
}

fn directory(dir: &str, name: &str) -> FsEntry {
    FsEntry { is_file: false, ..file(dir, name) }
}

#[test]
fn recognised_extensions_are_audio() {
    for name in ["a.mp3", "a.flac", "a.m4a", "a.ogg", "a.wav"] {
        assert!(is_audio_file(&file("/music", name)), "{}", name);
    }
}

#[test]
fn other_extensions_are_not_audio() {
    for name in ["a.txt", "a.jpg", "a.mp4", "a.mp33", "a.mp", "a.", "mp3", "notes"] {
        assert!(!is_audio_file(&file("/music", name)), "{}", name);
    }
}

#[test]
fn extension_is_matched_without_regard_to_case() {
    assert!(is_audio_file(&file("/music", "SONG.MP3")));
    assert!(is_audio_file(&file("/music", "Song.Flac")));
    assert!(is_audio_file(&file("/music", "song.WaV")));
}

#[test]
fn directory_with_audio_name_is_not_audio() {
    assert!(!is_audio_file(&directory("/music", "album.mp3")));
}

#[test]
fn entry_without_file_name_is_not_audio() {
    let root = FsEntry { path: "/".to_string(), parent_dir: None, file_name: None, is_file: true };
    assert!(!is_audio_file(&root));
}

#[test]
fn hidden_file_without_stem_has_no_extension() {
    assert!(!name_is_audio(".mp3"));
    assert!(name_is_audio("a.b.mp3"));
    assert!(name_is_audio("..mp3"));
    assert!(!name_is_audio(".."));
}

#[test]
fn only_the_final_extension_counts() {
    assert!(!name_is_audio("song.mp3.bak"));
    assert!(name_is_audio("song.bak.mp3"));
}

#[test]
fn extension_start_follows_the_final_dot() {
    assert_eq!(extension_start(&chars_of("song.mp3")), Some(5));
    assert_eq!(extension_start(&chars_of("a.b.c")), Some(4));
    assert_eq!(extension_start(&chars_of("a.")), Some(2));
    assert_eq!(extension_start(&chars_of("...")), Some(3));
    assert_eq!(extension_start(&chars_of(".hidden")), None);
    assert_eq!(extension_start(&chars_of("..")), None);
    assert_eq!(extension_start(&chars_of("plain")), None);
    assert_eq!(extension_start(&chars_of("")), None);
}

#[test]
fn last_dot_is_found_from_the_end() {
    assert_eq!(find_last_dot(&chars_of("a.b.c")), Some(3));
    assert_eq!(find_last_dot(&chars_of(".")), Some(0));
    assert_eq!(find_last_dot(&chars_of("abc")), None);
    assert_eq!(find_last_dot(&chars_of("")), None);
}

#[test]
fn chars_of_keeps_every_character() {
    assert_eq!(chars_of("héllo"), vec!['h', 'é', 'l', 'l', 'o']);
    assert_eq!(chars_of(""), Vec::<char>::new());
}

#[test]
fn lowering_folds_ascii_capitals_only() {
    assert_eq!(to_lower('A'), 'a');
    assert_eq!(to_lower('Z'), 'z');
    assert_eq!(to_lower('a'), 'a');
    assert_eq!(to_lower('@'), '@');
    assert_eq!(to_lower('['), '[');
    assert_eq!(to_lower('É'), 'É');
    assert_eq!(lowered(&chars_of("CoVeR É 1")), chars_of("cover É 1"));
}

#[test]
fn ranges_compare_exactly_or_folded() {
    let word = chars_of("Front.JPG");
    assert!(lowered_range_is(&word, 0, 5, &chars_of("front")));
    assert!(!range_is(&word, 0, 5, &chars_of("front")));
    assert!(range_is(&word, 6, 9, &chars_of("JPG")));
    assert!(!range_is(&word, 6, 9, &chars_of("jpg")));
    assert!(!lowered_range_is(&word, 0, 4, &chars_of("front")));
    assert!(range_is(&word, 3, 3, &chars_of("")));
}

#[test]
fn song_count_counts_audio_files_only() {
    let entries = vec![
        directory("/", "music"),
        file("/music", "01.mp3"),
        file("/music", "cover.jpg"),
        file("/music", "02.flac"),
        directory("/music", "extras.ogg"),
        file("/music", "notes.txt"),
        file("/music", "03.WAV"),
    ];
    assert_eq!(get_song_count(&entries), 3);
    assert_eq!(get_song_count(&Vec::new()), 0);
}
