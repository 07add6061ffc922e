//! Metadata extractor: one track record from a file's tag, with the rules
//! for what the tag leaves out.

use vstd::prelude::*;
use vstd::string::*;
use crate::audio::{decoded_length, decoder_reads, duration_of, get_duration, is_read_by_decoder};
use crate::classify::{Entry, FsEntry};
use crate::text::opt_view;

verus! {

/// What a file's embedded tag holds, field by field; `None` where the tag
/// has no such field.
#[derive(Debug, PartialEq, Eq)]
pub struct TagFields {
    pub title: Option<String>,
    pub artist: Option<String>,
    pub album_title: Option<String>,
    pub album_artist: Option<String>,
    pub track_number: Option<u16>,
    pub disc_number: Option<u16>,
    /// The tag's duration value as written, in unknown units.
    pub duration: Option<u64>,
    pub year: Option<i32>,
    pub genre: Option<String>,
}

/// Mathematical value of a [`TagFields`].
pub ghost struct Tag {
    pub title: Option<Seq<char>>,
    pub artist: Option<Seq<char>>,
    pub album_title: Option<Seq<char>>,
    pub album_artist: Option<Seq<char>>,
    pub track_number: Option<u16>,
    pub disc_number: Option<u16>,
    pub duration: Option<u64>,
    pub year: Option<i32>,
    pub genre: Option<Seq<char>>,
}

impl View for TagFields {
    type V = Tag;

    open spec fn view(&self) -> Tag {
        Tag {
            title: opt_view(self.title),
            artist: opt_view(self.artist),
            album_title: opt_view(self.album_title),
            album_artist: opt_view(self.album_artist),
            track_number: self.track_number,
            disc_number: self.disc_number,
            duration: self.duration,
            year: self.year,
            genre: opt_view(self.genre),
        }
    }
}

/// One audio file's metadata.
#[derive(Debug, PartialEq, Eq)]
pub struct SongMetadata {
    pub parent_dir: String,
    pub file_path: String,
    pub title: String,
    pub artist: String,
    pub album_title: String,
    pub album_artist: String,
    /// 0 where unknown.
    pub track_number: u16,
    /// 0 where unknown.
    pub disc_number: u16,
    /// Whole seconds.
    pub duration: u64,
    /// 0 where unknown.
    pub year: i32,
    /// Empty where unknown.
    pub genre: String,
}

/// Mathematical value of a [`SongMetadata`].
pub ghost struct TrackRecord {
    pub parent_dir: Seq<char>,
    pub file_path: Seq<char>,
    pub title: Seq<char>,
    pub artist: Seq<char>,
    pub album_title: Seq<char>,
    pub album_artist: Seq<char>,
    pub track_number: u16,
    pub disc_number: u16,
    pub duration: u64,
    pub year: i32,
    pub genre: Seq<char>,
}

impl View for SongMetadata {
    type V = TrackRecord;

    open spec fn view(&self) -> TrackRecord {
        TrackRecord {
            parent_dir: self.parent_dir@,
            file_path: self.file_path@,
            title: self.title@,
            artist: self.artist@,
            album_title: self.album_title@,
            album_artist: self.album_artist@,
            track_number: self.track_number,
            disc_number: self.disc_number,
            duration: self.duration,
            year: self.year,
            genre: self.genre@,
        }
    }
}

impl Clone for SongMetadata {
    fn clone(&self) -> (r: Self)
        ensures
            r == *self,
    {
        SongMetadata {
            parent_dir: self.parent_dir.clone(),
            file_path: self.file_path.clone(),
            title: self.title.clone(),
            artist: self.artist.clone(),
            album_title: self.album_title.clone(),
            album_artist: self.album_artist.clone(),
            track_number: self.track_number,
            disc_number: self.disc_number,
            duration: self.duration,
            year: self.year,
            genre: self.genre.clone(),
        }
    }
}

/// Why no record could be made of a file.
#[derive(Debug, Clone, Copy, PartialEq, Eq, Structural)]
pub enum ExtractionError {
    /// The path has no last component to name the file by.
    MissingFileName,
    /// The path has no parent directory.
    MissingParentDir,
    /// The file holds no tag that could be read.
    UnreadableTag,
}

/// Seconds that a tag's duration value stands for. The value is taken for
/// milliseconds, unless that gives under ten seconds: then it is taken for
/// seconds already.
pub open spec fn tag_seconds(raw: u64) -> u64 {
    if raw / 1000 < 10 {
        raw
    } else {
        raw / 1000
    }
}

/// Whether `c` is an ASCII decimal digit.
pub open spec fn is_digit(c: char) -> bool {
    '0' <= c && c <= '9'
}

/// Value of the ASCII decimal digit `c`.
pub open spec fn digit_value(c: char) -> int {
    c as u8 - 48
}

/// The number that the first two characters of `name` spell in decimal, if
/// they spell one: digits only, or a plus sign and a digit. A name of one
/// character is read whole.
pub open spec fn leading_number(name: Seq<char>) -> Option<u16> {
    if name.len() == 0 {
        None
    } else if name.len() == 1 {
        if is_digit(name[0]) {
            Some(digit_value(name[0]) as u16)
        } else {
            None
        }
    } else if name[0] == '+' && is_digit(name[1]) {
        Some(digit_value(name[1]) as u16)
    } else if is_digit(name[0]) && is_digit(name[1]) {
        Some((10 * digit_value(name[0]) + digit_value(name[1])) as u16)
    } else {
        None
    }
}

/// `value` where there is one, else `fallback`.
pub open spec fn or_else<T>(value: Option<T>, fallback: T) -> T {
    match value {
        Some(v) => v,
        None => fallback,
    }
}

/// The record made of a file named `file_name` in `parent_dir`, from its tag
/// and, for a tag without duration, from the decoded stream's length
/// (`fallback`; no length counts as zero seconds).
pub open spec fn record_of(
    path: Seq<char>,
    parent_dir: Seq<char>,
    file_name: Seq<char>,
    tag: Tag,
    fallback: Option<u64>,
) -> TrackRecord {
    let artist = or_else(tag.artist, "Unknown"@);
    TrackRecord {
        parent_dir,
        file_path: path,
        title: or_else(tag.title, file_name),
        artist,
        album_title: or_else(tag.album_title, "Unknown"@),
        album_artist: or_else(tag.album_artist, artist),
        track_number: or_else(tag.track_number, or_else(leading_number(file_name), 0)),
        disc_number: or_else(tag.disc_number, 0),
        duration: match tag.duration {
            Some(raw) => tag_seconds(raw),
            None => or_else(fallback, 0),
        },
        year: or_else(tag.year, 0),
        genre: or_else(tag.genre, Seq::empty()),
    }
}

/// Outcome of extraction for an entry, its tag where one could be read, and
/// the decoded stream's length where there is one.
pub open spec fn extract(entry: Entry, tag: Option<Tag>, fallback: Option<u64>) -> Result<
    TrackRecord,
    ExtractionError,
> {
    match (entry.file_name, entry.parent_dir, tag) {
        (None, _, _) => Err(ExtractionError::MissingFileName),
        (Some(_), None, _) => Err(ExtractionError::MissingParentDir),
        (Some(_), Some(_), None) => Err(ExtractionError::UnreadableTag),
        (Some(name), Some(dir), Some(t)) => Ok(record_of(entry.path, dir, name, t, fallback)),
    }
}

/// A track without an album artist of its own is attributed to its artist,
/// so its album artist is unknown only where its artist is.
pub proof fn lemma_album_artist_defaults(entry: Entry, tag: Tag, fallback: Option<u64>)
    requires
        tag.album_artist is None,
        extract(entry, Some(tag), fallback) is Ok,
    ensures
        extract(entry, Some(tag), fallback)->Ok_0.album_artist == extract(
            entry,
            Some(tag),
            fallback,
        )->Ok_0.artist,
{
}

/// Value of a tag where one was read.
pub open spec fn tag_view(tag: Option<&TagFields>) -> Option<Tag> {
    match tag {
        Some(t) => Some(t@),
        None => None,
    }
}

/// Value of a tag that is held, where one was read.
pub open spec fn held_tag_view(tag: Option<TagFields>) -> Option<Tag> {
    match tag {
        Some(t) => Some(t@),
        None => None,
    }
}

/// View of an extraction's outcome.
pub open spec fn outcome_view(r: Result<SongMetadata, ExtractionError>) -> Result<
    TrackRecord,
    ExtractionError,
> {
    match r {
        Ok(m) => Ok(m@),
        Err(e) => Err(e),
    }
}

/// Seconds that a tag's duration value stands for.
pub fn seconds_from_tag(raw: u64) -> (secs: u64)
    ensures
        secs == tag_seconds(raw),
{
    let seconds: u64 = raw / 1000;
    if seconds < 10 {
        raw
    } else {
        seconds
    }
}

/// Value of `c` as a decimal digit, if it is one.
fn digit(c: char) -> (r: Option<u16>)
    ensures
        r is Some == is_digit(c),
        r is Some ==> r->0 as int == digit_value(c) && r->0 <= 9,
{
    if '0' <= c && c <= '9' {
        Some(((c as u8) - 48) as u16)
    } else {
        None
    }
}

/// Track number read from the first two characters of a file name.
pub fn leading_track_number(name: &str) -> (r: Option<u16>)
    ensures
        r == leading_number(name@),
{
    let n: usize = name.unicode_len();
    if n == 0 {
        return None;
    }
    let first = name.get_char(0);
    if n == 1 {
        return digit(first);
    }
    let second = name.get_char(1);
    match digit(second) {
        None => None,
        Some(low) => {
            if first == '+' {
                Some(low)
            } else {
                match digit(first) {
                    Some(high) => Some(10 * high + low),
                    None => None,
                }
            }
        },
    }
}

/// Builds the record of one file from its walk entry, its tag where one
/// could be read, and the decoded stream's length where there is one.
pub fn song_metadata_from(entry: &FsEntry, tag: Option<&TagFields>, fallback: Option<u64>) -> (r:
    Result<SongMetadata, ExtractionError>)
    ensures
        outcome_view(r) == extract(entry@, tag_view(tag), fallback),
{
    let file_name = match &entry.file_name {
        Some(name) => name.clone(),
        None => {
            return Err(ExtractionError::MissingFileName);
        },
    };
    let parent_dir = match &entry.parent_dir {
        Some(dir) => dir.clone(),
        None => {
            return Err(ExtractionError::MissingParentDir);
        },
    };
    let tag = match tag {
        Some(t) => t,
        None => {
            return Err(ExtractionError::UnreadableTag);
        },
    };
    let track_number = match tag.track_number {
        Some(t) => t,
        None => match leading_track_number(file_name.as_str()) {
            Some(t) => t,
            None => 0,
        },
    };
    let title = match &tag.title {
        Some(t) => t.clone(),
        None => file_name,
    };
    let artist = match &tag.artist {
        Some(a) => a.clone(),
        None => String::from_str("Unknown"),
    };
    let album_title = match &tag.album_title {
        Some(a) => a.clone(),
        None => String::from_str("Unknown"),
    };
    let album_artist = match &tag.album_artist {
        Some(a) => a.clone(),
        None => artist.clone(),
    };
    let disc_number = match tag.disc_number {
        Some(d) => d,
        None => 0,
    };
    let duration = match tag.duration {
        Some(raw) => seconds_from_tag(raw),
        None => match fallback {
            Some(secs) => secs,
            None => 0,
        },
    };
    let year = match tag.year {
        Some(y) => y,
        None => 0,
    };
    let genre = match &tag.genre {
        Some(g) => g.clone(),
        None => String::new(),
    };
    Ok(
        SongMetadata {
            parent_dir,
            file_path: entry.path.clone(),
            title,
            artist,
            album_title,
            album_artist,
            track_number,
            disc_number,
            duration,
            year,
            genre,
        },
    )
}

/// Whether the file's stream has to be decoded for its length: there is a
/// tag, and it carries no duration.
pub open spec fn wants_stream(tag: Option<Tag>) -> bool {
    match tag {
        Some(t) => t.duration is None,
        None => false,
    }
}

/// The decoded length to fall back on for a tag: that of `data`, where the
/// stream has to be decoded and has a length.
pub open spec fn fallback_for(tag: Option<Tag>, data: Seq<u8>) -> Option<u64> {
    if wants_stream(tag) {
        match duration_of(decoded_length(data)) {
            Ok(secs) => Some(secs),
            Err(_) => None,
        }
    } else {
        None
    }
}

/// Whether the file's bytes are needed to make its record: they are read
/// only for a tag without duration.
pub fn needs_stream(tag: Option<&TagFields>) -> (r: bool)
    ensures
        r == wants_stream(tag_view(tag)),
{
    match tag {
        Some(t) => t.duration.is_none(),
        None => false,
    }
}

/// Builds the record of one file from its walk entry, its tag where one
/// could be read, and the file's bytes. The bytes are decoded for their
/// length only where the tag carries no duration; they then have to be a
/// stream that the decoder is handed. A stream without a length counts as
/// zero seconds.
pub fn get_song_metadata(entry: &FsEntry, tag: Option<&TagFields>, data: Vec<u8>) -> (r: Result<
    SongMetadata,
    ExtractionError,
>)
    requires
        wants_stream(tag_view(tag)) ==> decoder_reads(data@),
    ensures
        outcome_view(r) == extract(entry@, tag_view(tag), fallback_for(tag_view(tag), data@)),
{
    let fallback = if needs_stream(tag) {
        match get_duration(data) {
            Ok(secs) => Some(secs),
            Err(_) => None,
        }
    } else {
        None
    };
    song_metadata_from(entry, tag, fallback)
}

/// Whether a record can be made of the tag and the bytes without more: the
/// stream is not needed, or it is one that the decoder is handed.
pub open spec fn is_self_contained(tag: Option<Tag>, data: Seq<u8>) -> bool {
    wants_stream(tag) ==> decoder_reads(data)
}

/// Value of a record's outcome where a record was attempted.
pub open spec fn attempt_view(r: Option<Result<SongMetadata, ExtractionError>>) -> Option<
    Result<TrackRecord, ExtractionError>,
> {
    match r {
        Some(x) => Some(outcome_view(x)),
        None => None,
    }
}

/// Builds the record of one file as [`get_song_metadata`] does, where the
/// stream is not needed or is one that the decoder is handed. `None` says
/// that the stream's length has to come from elsewhere, through
/// [`song_metadata_from`]; it says nothing of the file.
pub fn song_metadata_if_read(entry: &FsEntry, tag: Option<&TagFields>, data: Vec<u8>) -> (r:
    Option<Result<SongMetadata, ExtractionError>>)
    ensures
        attempt_view(r) == if is_self_contained(tag_view(tag), data@) {
            Some(extract(entry@, tag_view(tag), fallback_for(tag_view(tag), data@)))
        } else {
            None
        },
{
    if needs_stream(tag) && !is_read_by_decoder(&data) {
        None
    } else {
        Some(get_song_metadata(entry, tag, data))
    }
}

} // verus!
