//! Byte-level views of UTF-8 text: White_Space characters, lines, and
//! occurrences of a needle.

use vstd::prelude::*;

verus! {

/// An ASCII byte that encodes a White_Space character: tab, line feed,
/// vertical tab, form feed, carriage return or space.
pub open spec fn is_ascii_white_space(b: u8) -> bool {
    b == 9 || b == 10 || b == 11 || b == 12 || b == 13 || b == 32
}

/// A three-byte UTF-8 sequence that encodes a White_Space character:
/// U+1680, U+2000..=U+200A, U+2028, U+2029, U+202F, U+205F or U+3000.
pub open spec fn is_white_space_3(a: u8, b: u8, c: u8) -> bool {
    ||| (a == 0xE1 && b == 0x9A && c == 0x80)
    ||| (a == 0xE2 && b == 0x80 && ((0x80 <= c && c <= 0x8A) || c == 0xA8 || c == 0xA9 || c
        == 0xAF))
    ||| (a == 0xE2 && b == 0x81 && c == 0x9F)
    ||| (a == 0xE3 && b == 0x80 && c == 0x80)
}

/// The byte width of the White_Space character whose UTF-8 encoding ends `s`,
/// or 0 when `s` does not end with one. The two-byte ones are U+0085 and U+00A0.
pub open spec fn white_space_suffix_width(s: Seq<u8>) -> int {
    let n = s.len() as int;
    if n >= 1 && is_ascii_white_space(s[n - 1]) {
        1
    } else if n >= 2 && s[n - 2] == 0xC2 && (s[n - 1] == 0x85 || s[n - 1] == 0xA0) {
        2
    } else if n >= 3 && is_white_space_3(s[n - 3], s[n - 2], s[n - 1]) {
        3
    } else {
        0
    }
}

/// The length of `s` once its trailing White_Space characters are removed.
pub open spec fn trim_end_len(s: Seq<u8>) -> nat
    decreases s.len(),
{
    let w = white_space_suffix_width(s);
    if w > 0 {
        trim_end_len(s.take(s.len() - w))
    } else {
        s.len()
    }
}

/// Offset `i` of `s` is where a character's encoding starts, or the end of
/// `s`: the start, the end, or an offset whose byte is not a UTF-8
/// continuation byte (as `str::is_char_boundary` decides).
pub open spec fn starts_char(s: Seq<u8>, i: int) -> bool {
    i == 0 || i == s.len() || (0 < i < s.len() && !(0x80 <= s[i] && s[i] <= 0xBF))
}

/// Whether offset `i` of `s` starts a character or is the end of `s`.
pub fn starts_char_exec(s: &[u8], i: usize) -> (b: bool)
    ensures
        b == starts_char(s@, i as int),
{
    if i == 0 || i == s.len() {
        true
    } else if i > s.len() {
        false
    } else {
        let byte = s[i];
        !(0x80 <= byte && byte <= 0xBF)
    }
}

/// `s` consists of White_Space characters only (or is empty).
pub open spec fn is_blank(s: Seq<u8>) -> bool {
    trim_end_len(s) == 0
}

/// `needle` occurs in `s` at byte offset `i`.
pub open spec fn occurs_at(s: Seq<u8>, i: int, needle: Seq<u8>) -> bool {
    0 <= i && i + needle.len() <= s.len() && s.subrange(i, i + needle.len()) == needle
}

/// The first offset at or after `from` at which `needle` occurs in `s`.
pub open spec fn first_occurrence_from(s: Seq<u8>, needle: Seq<u8>, from: int) -> Option<int>
    decreases s.len() + 1 - from,
{
    if from < 0 || from + needle.len() > s.len() {
        None
    } else if occurs_at(s, from, needle) {
        Some(from)
    } else {
        first_occurrence_from(s, needle, from + 1)
    }
}

/// The first offset at which `needle` occurs in `s`.
pub open spec fn first_occurrence(s: Seq<u8>, needle: Seq<u8>) -> Option<int> {
    first_occurrence_from(s, needle, 0)
}

/// The end of the line that starts at `start`: just past its line feed, or
/// the end of `s` for a last line without one.
pub open spec fn line_end(s: Seq<u8>, start: int) -> int
    decreases s.len() - start,
{
    if start >= s.len() {
        s.len() as int
    } else if s[start] == 10 {
        start + 1
    } else {
        line_end(s, start + 1)
    }
}

pub proof fn lemma_first_occurrence_occurs(s: Seq<u8>, needle: Seq<u8>, from: int)
    ensures
        first_occurrence_from(s, needle, from) matches Some(i) ==> from <= i && occurs_at(
            s,
            i,
            needle,
        ),
    decreases s.len() + 1 - from,
{
    if !(from < 0 || from + needle.len() > s.len()) && !occurs_at(s, from, needle) {
        lemma_first_occurrence_occurs(s, needle, from + 1);
    }
}

pub proof fn lemma_trim_end_len_le(s: Seq<u8>)
    ensures
        trim_end_len(s) <= s.len(),
    decreases s.len(),
{
    let w = white_space_suffix_width(s);
    if w > 0 {
        lemma_trim_end_len_le(s.take(s.len() - w));
    }
}

pub proof fn lemma_line_end_bounds(s: Seq<u8>, start: int)
    requires
        0 <= start < s.len(),
    ensures
        start < line_end(s, start) <= s.len(),
    decreases s.len() - start,
{
    if s[start] != 10 {
        if start + 1 < s.len() {
            lemma_line_end_bounds(s, start + 1);
        } else {
            assert(line_end(s, start + 1) == s.len());
        }
    }
}

/// The end of the line of `s` that starts at `start`.
pub fn line_end_exec(s: &[u8], start: usize) -> (e: usize)
    requires
        start < s@.len(),
    ensures
        e as int == line_end(s@, start as int),
        start < e <= s@.len(),
{
    proof {
        lemma_line_end_bounds(s@, start as int);
    }
    let mut i = start;
    while i < s.len()
        invariant
            start <= i <= s@.len(),
            line_end(s@, start as int) == line_end(s@, i as int),
        decreases s@.len() - i,
    {
        if s[i] == 10 {
            return i + 1;
        }
        i = i + 1;
    }
    i
}

/// Whether `needle` occurs in `s` at offset `i`.
pub fn occurs_at_exec(s: &[u8], i: usize, needle: &[u8]) -> (b: bool)
    ensures
        b == occurs_at(s@, i as int, needle@),
{
    if needle.len() > s.len() || i > s.len() - needle.len() {
        return false;
    }
    let mut k: usize = 0;
    while k < needle.len()
        invariant
            i + needle.len() <= s.len(),
            k <= needle@.len(),
            forall|j: int| 0 <= j < k ==> s@[i + j] == needle@[j],
        decreases needle@.len() - k,
    {
        if s[i + k] != needle[k] {
            assert(s@.subrange(i as int, i + needle@.len())[k as int] != needle@[k as int]);
            return false;
        }
        k = k + 1;
    }
    assert(s@.subrange(i as int, i + needle@.len()) =~= needle@);
    true
}

/// The first offset at which `needle` occurs in `s`.
pub fn first_occurrence_exec(s: &[u8], needle: &[u8]) -> (r: Option<usize>)
    ensures
        match r {
            Some(i) => first_occurrence(s@, needle@) == Some(i as int),
            None => first_occurrence(s@, needle@) is None,
        },
{
    if needle.len() > s.len() {
        return None;
    }
    let last = s.len() - needle.len();
    let mut i: usize = 0;
    while i <= last
        invariant
            last + needle@.len() == s@.len(),
            i <= last + 1,
            first_occurrence(s@, needle@) == first_occurrence_from(s@, needle@, i as int),
        decreases last + 1 - i,
    {
        if occurs_at_exec(s, i, needle) {
            return Some(i);
        }
        if i == last {
            assert(first_occurrence_from(s@, needle@, i + 1) is None);
            return None;
        }
        i = i + 1;
    }
    None
}

/// The width that `white_space_suffix_width` gives for the first `end` bytes of `s`.
fn white_space_suffix_width_exec(s: &[u8], end: usize) -> (w: usize)
    requires
        end <= s@.len(),
    ensures
        w as int == white_space_suffix_width(s@.take(end as int)),
{
    let ghost t = s@.take(end as int);
    if end >= 1 {
        let b = s[end - 1];
        if b == 9 || b == 10 || b == 11 || b == 12 || b == 13 || b == 32 {
            return 1;
        }
    }
    if end >= 2 {
        let a = s[end - 2];
        let b = s[end - 1];
        if a == 0xC2 && (b == 0x85 || b == 0xA0) {
            return 2;
        }
    }
    if end >= 3 {
        let a = s[end - 3];
        let b = s[end - 2];
        let c = s[end - 1];
        if (a == 0xE1 && b == 0x9A && c == 0x80) || (a == 0xE2 && b == 0x80 && ((0x80 <= c && c
            <= 0x8A) || c == 0xA8 || c == 0xA9 || c == 0xAF)) || (a == 0xE2 && b == 0x81 && c
            == 0x9F) || (a == 0xE3 && b == 0x80 && c == 0x80) {
            return 3;
        }
    }
    0
}

/// The length of the first `end` bytes of `s` once trailing White_Space is removed.
pub fn trim_end_len_exec(s: &[u8], end: usize) -> (n: usize)
    requires
        end <= s@.len(),
    ensures
        n as int == trim_end_len(s@.take(end as int)),
{
    let mut k = end;
    while k > 0
        invariant
            k <= end <= s@.len(),
            trim_end_len(s@.take(end as int)) == trim_end_len(s@.take(k as int)),
        decreases k,
    {
        let w = white_space_suffix_width_exec(s, k);
        if w == 0 {
            return k;
        }
        assert(s@.take(k as int).take(k - w) =~= s@.take(k - w));
        k = k - w;
    }
    k
}

} // verus!
