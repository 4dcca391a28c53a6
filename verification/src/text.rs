//! Character-level text primitives: simple case folding and contiguous
//! substring containment, each with an executable form proved against its
//! mathematical statement.
use vstd::prelude::*;
use vstd::string::StrSliceExecFns;

verus! {

/// Simple case folding of one character: the basic upper-case letters fold to
/// their lower-case counterparts, every other character is left unchanged.
pub open spec fn lower_char(c: char) -> char {
    if 'A' <= c && c <= 'Z' {
        ((c as u8) + 32) as char
    } else {
        c
    }
}

/// Simple case folding of a whole text, character by character.
pub open spec fn lower(s: Seq<char>) -> Seq<char> {
    s.map_values(|c: char| lower_char(c))
}

/// `needle` occurs in `hay` starting at position `i`.
pub open spec fn contains_at(hay: Seq<char>, needle: Seq<char>, i: int) -> bool {
    &&& 0 <= i
    &&& i + needle.len() <= hay.len()
    &&& hay.subrange(i, i + needle.len() as int) == needle
}

/// `needle` occurs somewhere in `hay` as a contiguous run of characters.
pub open spec fn contains_substring(hay: Seq<char>, needle: Seq<char>) -> bool {
    exists|i: int| contains_at(hay, needle, i)
}

/// The empty text occurs in everything, at position zero.
pub proof fn lemma_empty_needle_contained(hay: Seq<char>)
    ensures
        contains_substring(hay, Seq::<char>::empty()),
{
    assert(contains_at(hay, Seq::<char>::empty(), 0)) by {
        assert(hay.subrange(0, 0) =~= Seq::<char>::empty());
    }
}

/// Case folding maps every occurrence through unchanged: a substring of the
/// original is, folded, a substring of the folded text at the same position.
pub proof fn lemma_lower_preserves_contains(hay: Seq<char>, needle: Seq<char>)
    requires
        contains_substring(hay, needle),
    ensures
        contains_substring(lower(hay), lower(needle)),
{
    let i = choose|i: int| contains_at(hay, needle, i);
    assert(contains_at(lower(hay), lower(needle), i)) by {
        assert(lower(hay).subrange(i, i + lower(needle).len() as int) =~= lower(needle));
    }
}

/// The executable form of [`lower_char`].
fn lower_char_exec(c: char) -> (folded: char)
    ensures
        folded == lower_char(c),
{
    if 'A' <= c && c <= 'Z' {
        ((c as u8) + 32) as char
    } else {
        c
    }
}

/// The characters of a string, in order, as a vector.
pub fn chars_of(s: &str) -> (chars: Vec<char>)
    ensures
        chars@ == s@,
{
    let n = s.unicode_len();
    let mut chars: Vec<char> = Vec::new();
    let mut i: usize = 0;
    while i < n
        invariant
            i <= n,
            n == s@.len(),
            chars@ == s@.subrange(0, i as int),
        decreases n - i,
    {
        chars.push(s.get_char(i));
        i = i + 1;
        assert(chars@ =~= s@.subrange(0, i as int));
    }
    assert(chars@ =~= s@);
    chars
}

/// The characters of a string, case folded, in order, as a vector.
pub fn lower_chars_of(s: &str) -> (chars: Vec<char>)
    ensures
        chars@ == lower(s@),
{
    let n = s.unicode_len();
    let mut chars: Vec<char> = Vec::new();
    let mut i: usize = 0;
    while i < n
        invariant
            i <= n,
            n == s@.len(),
            chars@ == lower(s@.subrange(0, i as int)),
        decreases n - i,
    {
        chars.push(lower_char_exec(s.get_char(i)));
        i = i + 1;
        assert(chars@ =~= lower(s@.subrange(0, i as int)));
    }
    assert(chars@ =~= lower(s@));
    chars
}

/// Whether `needle` occurs in `hay` starting exactly at position `i`.
fn matches_at(hay: &Vec<char>, needle: &Vec<char>, i: usize) -> (found: bool)
    requires
        i + needle@.len() <= hay@.len(),
    ensures
        found == contains_at(hay@, needle@, i as int),
{
    let n = hay.len();
    let m = needle.len();
    let mut j: usize = 0;
    while j < m
        invariant
            j <= m,
            n == hay@.len(),
            m == needle@.len(),
            i + m <= n,
            forall|k: int| 0 <= k < j ==> hay@[i + k] == needle@[k],
        decreases m - j,
    {
        if hay[i + j] != needle[j] {
            assert(hay@.subrange(i as int, i + needle@.len() as int)[j as int] != needle@[j as int]);
            return false;
        }
        j = j + 1;
    }
    assert(hay@.subrange(i as int, i + needle@.len() as int) =~= needle@);
    true
}

/// Whether `needle` occurs anywhere in `hay` as a contiguous run.
pub fn contains_chars(hay: &Vec<char>, needle: &Vec<char>) -> (found: bool)
    ensures
        found == contains_substring(hay@, needle@),
{
    let n = hay.len();
    let m = needle.len();
    if m > n {
        assert(forall|i: int| !contains_at(hay@, needle@, i));
        return false;
    }
    if m == 0 {
        proof {
            lemma_empty_needle_contained(hay@);
            assert(needle@ =~= Seq::<char>::empty());
        }
        return true;
    }
    let mut i: usize = 0;
    while i <= n - m
        invariant
            0 < m <= n,
            n == hay@.len(),
            m == needle@.len(),
            i <= n - m + 1,
            forall|k: int| 0 <= k < i ==> !contains_at(hay@, needle@, k),
        decreases n - i,
    {
        if matches_at(hay, needle, i) {
            return true;
        }
        i = i + 1;
    }
    assert(forall|k: int| !contains_at(hay@, needle@, k));
    false
}

} // verus!
