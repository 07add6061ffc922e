//! File classifier: which entries of a directory walk are audio files.

use vstd::prelude::*;
use vstd::string::*;
use crate::text::{ascii_lower, chars_of, extension, find_last_dot, has_extension, last_dot,
    lemma_last_dot, lowered_range_is, opt_view};

verus! {

/// One entry of a directory walk, as plain values.
#[derive(Debug, PartialEq, Eq)]
pub struct FsEntry {
    /// Full path of the entry.
    pub path: String,
    /// Path of the directory that holds it, where it has one.
    pub parent_dir: Option<String>,
    /// Last component of the path, where it has one.
    pub file_name: Option<String>,
    /// Whether the entry is a regular file.
    pub is_file: bool,
}

/// Mathematical value of an [`FsEntry`].
pub ghost struct Entry {
    pub path: Seq<char>,
    pub parent_dir: Option<Seq<char>>,
    pub file_name: Option<Seq<char>>,
    pub is_file: bool,
}

impl View for FsEntry {
    type V = Entry;

    open spec fn view(&self) -> Entry {
        Entry {
            path: self.path@,
            parent_dir: opt_view(self.parent_dir),
            file_name: opt_view(self.file_name),
            is_file: self.is_file,
        }
    }
}

impl Clone for FsEntry {
    fn clone(&self) -> (r: Self)
        ensures
            r@ == self@,
    {
        FsEntry {
            path: self.path.clone(),
            parent_dir: match &self.parent_dir {
                Some(dir) => Some(dir.clone()),
                None => None,
            },
            file_name: match &self.file_name {
                Some(name) => Some(name.clone()),
                None => None,
            },
            is_file: self.is_file,
        }
    }
}

/// Whether `ext`, compared without regard to ASCII case, is one of the
/// recognised audio extensions.
pub open spec fn is_audio_extension(ext: Seq<char>) -> bool {
    let e = ascii_lower(ext);
    e == "mp3"@ || e == "flac"@ || e == "m4a"@ || e == "ogg"@ || e == "wav"@
}

/// Whether a file name carries a recognised audio extension.
pub open spec fn has_audio_extension(name: Seq<char>) -> bool {
    match extension(name) {
        Some(ext) => is_audio_extension(ext),
        None => false,
    }
}

/// An entry is an audio file when it is a regular file whose name carries a
/// recognised audio extension.
pub open spec fn is_audio(e: Entry) -> bool {
    e.is_file && match e.file_name {
        Some(name) => has_audio_extension(name),
        None => false,
    }
}

/// Number of audio files among `entries`.
pub open spec fn count_audio(entries: Seq<FsEntry>) -> nat
    decreases entries.len(),
{
    if entries.len() == 0 {
        0
    } else {
        count_audio(entries.drop_last()) + if is_audio(entries.last()@) {
            1nat
        } else {
            0nat
        }
    }
}

/// Start of the extension in `name`, when the name splits into stem and
/// extension: the index just behind the final dot.
pub fn extension_start(name: &Vec<char>) -> (r: Option<usize>)
    ensures
        r is Some == has_extension(name@),
        r is Some ==> r->0 as int == last_dot(name@) + 1 && r->0 <= name.len(),
{
    proof {
        lemma_last_dot(name@);
    }
    match find_last_dot(name) {
        None => None,
        Some(d) => {
            if d == 0 {
                None
            } else if name.len() == 2 && name[0] == '.' {
                assert(name@ =~= seq!['.', '.']);
                None
            } else {
                assert(name@ != seq!['.', '.']) by {
                    if name@ == seq!['.', '.'] {
                        assert(seq!['.', '.'].len() == 2);
                        assert(seq!['.', '.'][0] == '.');
                    }
                }
                Some(d + 1)
            }
        },
    }
}

/// Whether the file name `name` carries a recognised audio extension.
pub fn name_is_audio(name: &str) -> (r: bool)
    ensures
        r == has_audio_extension(name@),
{
    let chars = chars_of(name);
    match extension_start(&chars) {
        None => false,
        Some(from) => {
            let to: usize = chars.len();
            lowered_range_is(&chars, from, to, &chars_of("mp3"))
                || lowered_range_is(&chars, from, to, &chars_of("flac"))
                || lowered_range_is(&chars, from, to, &chars_of("m4a"))
                || lowered_range_is(&chars, from, to, &chars_of("ogg"))
                || lowered_range_is(&chars, from, to, &chars_of("wav"))
        },
    }
}

/// Whether `entry` is a regular file with a recognised audio extension.
pub fn is_audio_file(entry: &FsEntry) -> (r: bool)
    ensures
        r == is_audio(entry@),
{
    if !entry.is_file {
        return false;
    }
    match &entry.file_name {
        Some(name) => name_is_audio(name.as_str()),
        None => false,
    }
}

/// Number of audio files among the entries of a walk.
pub fn get_song_count(entries: &Vec<FsEntry>) -> (count: usize)
    ensures
        count == count_audio(entries@),
{
    let mut count: usize = 0;
    let mut i: usize = 0;
    while i < entries.len()
        invariant
            i <= entries.len(),
            count <= i,
            count == count_audio(entries@.subrange(0, i as int)),
        decreases entries.len() - i,
    {
        let ghost next = entries@.subrange(0, i + 1);
        assert(next.drop_last() =~= entries@.subrange(0, i as int));
        assert(next.last() == entries@[i as int]);
        if is_audio_file(&entries[i]) {
            count += 1;
        }
        i += 1;
    }
    assert(entries@.subrange(0, i as int) =~= entries@);
    count
}

} // verus!
