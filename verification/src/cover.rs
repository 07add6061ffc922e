//! Cover art resolver: the first image of a directory listing whose name
//! marks it as album art.

use vstd::prelude::*;
use vstd::string::*;
use crate::classify::{extension_start, Entry, FsEntry};
use crate::text::{ascii_lower, chars_of, extension, file_stem, lowered, lowered_range_is, opt_view,
    range_is};

verus! {

/// Whether `ext` is one of the image extensions, spelled in small letters.
pub open spec fn is_image_extension(ext: Seq<char>) -> bool {
    ext == "jpg"@ || ext == "png"@ || ext == "jpeg"@ || ext == "gif"@ || ext == "bmp"@ || ext
        == "webp"@
}

/// Whether a word in small letters is one of the cover keywords or the
/// album's title in small letters.
pub open spec fn is_cover_word(word: Seq<char>, folded_title: Seq<char>) -> bool {
    word == "cover"@ || word == "folder"@ || word == "front"@ || word == folded_title
}

/// Whether a file name with an image extension has a stem that, compared
/// without regard to ASCII case, is a cover keyword or the title.
pub open spec fn is_cover_name_for(name: Seq<char>, folded_title: Seq<char>) -> bool {
    match extension(name) {
        Some(ext) => is_image_extension(ext) && is_cover_word(
            ascii_lower(file_stem(name)),
            folded_title,
        ),
        None => false,
    }
}

/// Whether a file name is that of a cover image for the album.
pub open spec fn is_cover_name(name: Seq<char>, album_title: Seq<char>) -> bool {
    is_cover_name_for(name, ascii_lower(album_title))
}

/// Whether an entry is a cover image for the album: a regular file with an
/// image extension and a matching stem.
pub open spec fn is_cover(e: Entry, album_title: Seq<char>) -> bool {
    e.is_file && match e.file_name {
        Some(name) => is_cover_name(name, album_title),
        None => false,
    }
}

/// Path of the first cover image in `listing`, in the listing's order.
pub open spec fn find_cover(listing: Seq<FsEntry>, album_title: Seq<char>) -> Option<Seq<char>>
    decreases listing.len(),
{
    if listing.len() == 0 {
        None
    } else if is_cover(listing[0]@, album_title) {
        Some(listing[0].path@)
    } else {
        find_cover(listing.drop_first(), album_title)
    }
}

/// `find_cover` names the first entry that is a cover, and finds nothing
/// exactly when no entry is one.
pub proof fn lemma_find_cover_first(listing: Seq<FsEntry>, album_title: Seq<char>)
    ensures
        match find_cover(listing, album_title) {
            Some(p) => exists|i: int|
                0 <= i < listing.len() && is_cover(#[trigger] listing[i]@, album_title) && p
                    == listing[i].path@ && forall|j: int|
                    0 <= j < i ==> !is_cover(#[trigger] listing[j]@, album_title),
            None => forall|i: int|
                0 <= i < listing.len() ==> !is_cover(#[trigger] listing[i]@, album_title),
        },
    decreases listing.len(),
{
    if listing.len() > 0 {
        if is_cover(listing[0]@, album_title) {
            assert(is_cover(listing[0]@, album_title) && forall|j: int|
                0 <= j < 0 ==> !is_cover(#[trigger] listing[j]@, album_title));
        } else {
            let rest = listing.drop_first();
            lemma_find_cover_first(rest, album_title);
            match find_cover(rest, album_title) {
                Some(p) => {
                    let i = choose|i: int|
                        0 <= i < rest.len() && is_cover(#[trigger] rest[i]@, album_title) && p
                            == rest[i].path@ && forall|j: int|
                            0 <= j < i ==> !is_cover(#[trigger] rest[j]@, album_title);
                    assert(rest[i] == listing[i + 1]);
                    assert forall|j: int| 0 <= j < i + 1 implies !is_cover(
                        #[trigger] listing[j]@,
                        album_title,
                    ) by {
                        if j > 0 {
                            assert(rest[j - 1] == listing[j]);
                        }
                    }
                    assert(is_cover(listing[i + 1]@, album_title));
                },
                None => {
                    assert forall|i: int| 0 <= i < listing.len() implies !is_cover(
                        #[trigger] listing[i]@,
                        album_title,
                    ) by {
                        if i > 0 {
                            assert(rest[i - 1] == listing[i]);
                        }
                    }
                },
            }
        }
    }
}

/// Resolving the cover is a function of what the listing holds: two listings
/// with the same entries, one by one, give the same path for the same title.
pub proof fn lemma_find_cover_stable(a: Seq<FsEntry>, b: Seq<FsEntry>, album_title: Seq<char>)
    requires
        a.len() == b.len(),
        forall|i: int| 0 <= i < a.len() ==> a[i]@ == b[i]@,
    ensures
        find_cover(a, album_title) == find_cover(b, album_title),
    decreases a.len(),
{
    if a.len() > 0 {
        assert(a[0]@ == b[0]@);
        let ra = a.drop_first();
        let rb = b.drop_first();
        assert forall|i: int| 0 <= i < ra.len() implies ra[i]@ == rb[i]@ by {
            assert(ra[i] == a[i + 1]);
            assert(rb[i] == b[i + 1]);
        }
        lemma_find_cover_stable(ra, rb, album_title);
    }
}

/// Whether `name[from..]` is an image extension.
fn is_image_range(name: &Vec<char>, from: usize) -> (r: bool)
    requires
        from <= name.len(),
    ensures
        r == is_image_extension(name@.subrange(from as int, name.len() as int)),
{
    let to: usize = name.len();
    range_is(name, from, to, &chars_of("jpg")) || range_is(name, from, to, &chars_of("png"))
        || range_is(name, from, to, &chars_of("jpeg")) || range_is(
        name,
        from,
        to,
        &chars_of("gif"),
    ) || range_is(name, from, to, &chars_of("bmp")) || range_is(name, from, to, &chars_of("webp"))
}

/// Whether `name[..to]`, folded to lower case, is a cover keyword or the
/// folded title.
fn is_cover_range(name: &Vec<char>, to: usize, folded_title: &Vec<char>) -> (r: bool)
    requires
        to <= name.len(),
    ensures
        r == is_cover_word(ascii_lower(name@.subrange(0, to as int)), folded_title@),
{
    lowered_range_is(name, 0, to, &chars_of("cover")) || lowered_range_is(
        name,
        0,
        to,
        &chars_of("folder"),
    ) || lowered_range_is(name, 0, to, &chars_of("front")) || lowered_range_is(
        name,
        0,
        to,
        folded_title,
    )
}

/// Whether the file name `name` is that of a cover image, given the album's
/// title folded to lower case.
fn name_is_cover(name: &str, folded_title: &Vec<char>) -> (r: bool)
    ensures
        r == is_cover_name_for(name@, folded_title@),
{
    let chars = chars_of(name);
    match extension_start(&chars) {
        None => false,
        Some(from) => is_image_range(&chars, from) && is_cover_range(
            &chars,
            from - 1,
            folded_title,
        ),
    }
}

/// Searches a directory listing, in its order, for the album's cover image
/// and returns the path of the first one.
pub fn find_cover_art(listing: &Vec<FsEntry>, album_title: &str) -> (r: Option<String>)
    ensures
        opt_view(r) == find_cover(listing@, album_title@),
{
    let folded = lowered(&chars_of(album_title));
    let mut i: usize = 0;
    assert(listing@.subrange(0, listing.len() as int) =~= listing@);
    while i < listing.len()
        invariant
            i <= listing.len(),
            folded@ == ascii_lower(album_title@),
            find_cover(listing@, album_title@) == find_cover(
                listing@.subrange(i as int, listing.len() as int),
                album_title@,
            ),
        decreases listing.len() - i,
    {
        let ghost rest = listing@.subrange(i as int, listing.len() as int);
        assert(rest[0] == listing@[i as int]);
        assert(rest.drop_first() =~= listing@.subrange(i + 1, listing.len() as int));
        let entry = &listing[i];
        let hit = entry.is_file && match &entry.file_name {
            Some(name) => name_is_cover(name.as_str(), &folded),
            None => false,
        };
        if hit {
            return Some(entry.path.clone());
        }
        i += 1;
    }
    assert(listing@.subrange(i as int, listing.len() as int).len() == 0);
    None
}

} // verus!
