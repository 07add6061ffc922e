//! Character-level helpers on strings: ASCII case folding, comparison, and
//! the split of a file name at its final dot.

use vstd::prelude::*;
use vstd::string::*;

verus! {

/// The characters of a string where there is one.
pub open spec fn opt_view(s: Option<String>) -> Option<Seq<char>> {
    match s {
        Some(x) => Some(x@),
        None => None,
    }
}

/// `c` with the ASCII capitals mapped to their small letters; every other
/// character is unchanged.
pub open spec fn lower_char(c: char) -> char {
    if 'A' <= c && c <= 'Z' {
        ((c as u8 + 32) as u8) as char
    } else {
        c
    }
}

/// `s` with every character folded by [`lower_char`].
pub open spec fn ascii_lower(s: Seq<char>) -> Seq<char> {
    Seq::new(s.len(), |i: int| lower_char(s[i]))
}

/// Index of the last `'.'` in `name`, or `-1` when it holds none.
pub open spec fn last_dot(name: Seq<char>) -> int
    decreases name.len(),
{
    if name.len() == 0 {
        -1
    } else if name.last() == '.' {
        name.len() - 1
    } else {
        last_dot(name.drop_last())
    }
}

/// Whether `name` splits into a stem and an extension: it holds a dot that is
/// not its first character, and it is not the parent-directory name `..`.
pub open spec fn has_extension(name: Seq<char>) -> bool {
    last_dot(name) > 0 && name != seq!['.', '.']
}

/// The part of `name` behind its final dot, if it splits.
pub open spec fn extension(name: Seq<char>) -> Option<Seq<char>> {
    if has_extension(name) {
        Some(name.subrange(last_dot(name) + 1, name.len() as int))
    } else {
        None
    }
}

/// The part of `name` before its final dot; the whole name if it does not split.
pub open spec fn file_stem(name: Seq<char>) -> Seq<char> {
    if has_extension(name) {
        name.subrange(0, last_dot(name))
    } else {
        name
    }
}

/// `last_dot` is either `-1`, with no dot anywhere, or the index of a dot
/// with none behind it.
pub proof fn lemma_last_dot(name: Seq<char>)
    ensures
        -1 <= last_dot(name) < name.len(),
        last_dot(name) >= 0 ==> name[last_dot(name)] == '.',
        forall|j: int| last_dot(name) < j < name.len() ==> name[j] != '.',
    decreases name.len(),
{
    if name.len() > 0 && name.last() != '.' {
        lemma_last_dot(name.drop_last());
        assert forall|j: int| last_dot(name) < j < name.len() implies name[j] != '.' by {
            if j < name.len() - 1 {
                assert(name.drop_last()[j] == name[j]);
            }
        }
    }
}

/// ASCII case folding of one character.
pub fn to_lower(c: char) -> (r: char)
    ensures
        r == lower_char(c),
{
    if 'A' <= c && c <= 'Z' {
        ((c as u8) + 32) as char
    } else {
        c
    }
}

/// The characters of `s`, in order.
pub fn chars_of(s: &str) -> (v: Vec<char>)
    ensures
        v@ == s@,
{
    let n: usize = s.unicode_len();
    let mut v: Vec<char> = Vec::new();
    let mut i: usize = 0;
    while i < n
        invariant
            n == s@.len(),
            i <= n,
            v@ == s@.subrange(0, i as int),
        decreases n - i,
    {
        v.push(s.get_char(i));
        i += 1;
        assert(v@ =~= s@.subrange(0, i as int));
    }
    assert(v@ =~= s@);
    v
}

/// Position of the final dot of `name`, if it has one.
pub fn find_last_dot(name: &Vec<char>) -> (r: Option<usize>)
    ensures
        match r {
            Some(i) => i as int == last_dot(name@),
            None => last_dot(name@) == -1,
        },
{
    let mut i: usize = name.len();
    assert(name@.subrange(0, i as int) =~= name@);
    while i > 0
        invariant
            i <= name.len(),
            last_dot(name@) == last_dot(name@.subrange(0, i as int)),
        decreases i,
    {
        let ghost prefix = name@.subrange(0, i as int);
        assert(prefix.last() == name@[i - 1]);
        assert(prefix.drop_last() =~= name@.subrange(0, i - 1));
        if name[i - 1] == '.' {
            return Some(i - 1);
        }
        i -= 1;
    }
    assert(name@.subrange(0, 0).len() == 0);
    None
}

/// `word` folded to lower case.
pub fn lowered(word: &Vec<char>) -> (r: Vec<char>)
    ensures
        r@ == ascii_lower(word@),
{
    let mut r: Vec<char> = Vec::new();
    let mut i: usize = 0;
    while i < word.len()
        invariant
            i <= word.len(),
            r@.len() == i,
            forall|j: int| 0 <= j < i ==> r@[j] == lower_char(word@[j]),
        decreases word.len() - i,
    {
        r.push(to_lower(word[i]));
        i += 1;
    }
    assert(r@ =~= ascii_lower(word@));
    r
}

/// Whether `word[from..to]` spells `other`.
pub fn range_is(word: &Vec<char>, from: usize, to: usize, other: &Vec<char>) -> (r: bool)
    requires
        from <= to <= word.len(),
    ensures
        r == (word@.subrange(from as int, to as int) == other@),
{
    let ghost part = word@.subrange(from as int, to as int);
    if to - from != other.len() {
        return false;
    }
    let n: usize = to - from;
    let mut i: usize = 0;
    while i < n
        invariant
            from <= to <= word.len(),
            n == to - from,
            n == other.len(),
            i <= n,
            part == word@.subrange(from as int, to as int),
            forall|j: int| 0 <= j < i ==> part[j] == other@[j],
        decreases n - i,
    {
        assert(part[i as int] == word@[from + i]);
        if word[from + i] != other[i] {
            return false;
        }
        i += 1;
    }
    assert(part =~= other@);
    true
}

/// Whether `word[from..to]`, folded to lower case, spells `folded`.
pub fn lowered_range_is(word: &Vec<char>, from: usize, to: usize, folded: &Vec<char>) -> (r: bool)
    requires
        from <= to <= word.len(),
    ensures
        r == (ascii_lower(word@.subrange(from as int, to as int)) == folded@),
{
    let ghost part = word@.subrange(from as int, to as int);
    if to - from != folded.len() {
        assert(ascii_lower(part).len() != folded@.len());
        return false;
    }
    let n: usize = to - from;
    let mut i: usize = 0;
    while i < n
        invariant
            from <= to <= word.len(),
            n == to - from,
            n == folded.len(),
            i <= n,
            part == word@.subrange(from as int, to as int),
            forall|j: int| 0 <= j < i ==> ascii_lower(part)[j] == folded@[j],
        decreases n - i,
    {
        assert(part[i as int] == word@[from + i]);
        if to_lower(word[from + i]) != folded[i] {
            assert(ascii_lower(part)[i as int] != folded@[i as int]);
            return false;
        }
        i += 1;
    }
    assert(ascii_lower(part) =~= folded@);
    true
}

} // verus!
