//! Removal of keyword comments and keyword-delimited blocks from text.
//!
//! A line whose comment opens with the keyword loses that comment; a line
//! that becomes blank by it is dropped. A line that holds only a
//! `KEYWORD-BEGIN` marker comment opens a block, and every line up to and
//! including the next line that starts with a `KEYWORD-END` marker comment
//! is dropped.

use vstd::prelude::*;
use vstd::string::StringExecFns;
use crate::pattern::{Matcher, regex_compiles, found_at};
use crate::text::{is_blank, trim_end_len, occurs_at, first_occurrence, line_end, trim_end_len_exec, first_occurrence_exec, occurs_at_exec, lemma_line_end_bounds, lemma_first_occurrence_occurs, lemma_trim_end_len_le, line_end_exec, starts_char, starts_char_exec};
use vstd::utf8::encode_utf8;
use vstd::string::StringSliceAdditionalSpecFns;

verus! {

/// Characters that have significance in a regex, as `regex_syntax::is_meta_character` lists them.
pub open spec fn is_meta_character(c: char) -> bool {
    c == '\\' || c == '.' || c == '+' || c == '*' || c == '?' || c == '(' || c == ')' || c == '|'
        || c == '[' || c == ']' || c == '{' || c == '}' || c == '^' || c == '$' || c == '#' || c
        == '&' || c == '-' || c == '~'
}

/// `s` with a backslash put before every regex meta character.
pub open spec fn escape_chars(s: Seq<char>) -> Seq<char>
    decreases s.len(),
{
    if s.len() == 0 {
        Seq::empty()
    } else {
        (if is_meta_character(s[0]) {
            seq!['\\', s[0]]
        } else {
            seq![s[0]]
        }) + escape_chars(s.drop_first())
    }
}

/// Calls `regex::escape`, which puts a backslash before each meta character
/// and copies every other character.
#[verifier::external_body]
fn regex_escape(text: &str) -> (r: String)
    ensures
        r@ == escape_chars(text@),
{
    regex::escape(text)
}

/// The suffix of the marker that opens a block.
pub const BLOCK_BEGIN_SUFFIX: &'static str = "BEGIN";

/// The suffix of the marker that closes a block.
pub const BLOCK_END_SUFFIX: &'static str = "END";

/// The text of the case-insensitive regex compiled from `pattern`.
pub open spec fn case_insensitive_source(pattern: Seq<char>) -> Seq<char> {
    "(?i)"@ + pattern
}

/// The pattern of a comment that opens with the keyword, together with the
/// White_Space before it and the rest of the line after it.
pub open spec fn keyword_comment_source(token: Seq<char>, keyword: Seq<char>) -> Seq<char> {
    case_insensitive_source(
        r"\s*"@ + escape_chars(token) + r"\s*"@ + escape_chars(keyword) + r"\b:?[^\r\n]*"@,
    )
}

/// The pattern of a `KEYWORD-SUFFIX` marker comment, after `prefix`.
pub open spec fn marker_source(
    token: Seq<char>,
    keyword: Seq<char>,
    suffix: Seq<char>,
    prefix: Seq<char>,
) -> Seq<char> {
    case_insensitive_source(
        prefix + escape_chars(token) + r"[ \t]*"@ + escape_chars(keyword) + "-"@ + suffix
            + r"\b"@,
    )
}

/// A `KEYWORD-BEGIN` marker that opens its line.
pub open spec fn begin_source(token: Seq<char>, keyword: Seq<char>) -> Seq<char> {
    marker_source(token, keyword, "BEGIN"@, r"^[ \t]*"@)
}

/// A `KEYWORD-END` marker that opens its line.
pub open spec fn end_source(token: Seq<char>, keyword: Seq<char>) -> Seq<char> {
    marker_source(token, keyword, "END"@, r"^[ \t]*"@)
}

/// A `KEYWORD-END` marker anywhere.
pub open spec fn inline_end_source(token: Seq<char>, keyword: Seq<char>) -> Seq<char> {
    marker_source(token, keyword, "END"@, ""@)
}

/// The regex crate accepts all four patterns of `token` and `keyword`.
pub open spec fn patterns_compile(token: Seq<char>, keyword: Seq<char>) -> bool {
    &&& regex_compiles(keyword_comment_source(token, keyword))
    &&& regex_compiles(begin_source(token, keyword))
    &&& regex_compiles(end_source(token, keyword))
    &&& regex_compiles(inline_end_source(token, keyword))
}

/// Compiles `pattern` as a case-insensitive regex; `None` when the regex
/// crate rejects it.
pub fn build_case_insensitive(pattern: &str) -> (r: Option<Matcher>)
    ensures
        r is Some <==> regex_compiles(case_insensitive_source(pattern@)),
        r matches Some(m) ==> m@ == case_insensitive_source(pattern@),
{
    let mut source = String::from_str("(?i)");
    source.append(pattern);
    Matcher::new(source)
}

/// The pattern of a comment that opens with `keyword` after `comment_token`.
pub fn build_keyword_comment_pattern(comment_token: &str, keyword: &str) -> (r: Option<Matcher>)
    ensures
        r is Some <==> regex_compiles(keyword_comment_source(comment_token@, keyword@)),
        r matches Some(m) ==> m@ == keyword_comment_source(comment_token@, keyword@),
{
    let token_literal = regex_escape(comment_token);
    let keyword_literal = regex_escape(keyword);
    let mut pattern = String::from_str(r"\s*");
    pattern.append(token_literal.as_str());
    pattern.append(r"\s*");
    pattern.append(keyword_literal.as_str());
    pattern.append(r"\b:?[^\r\n]*");
    proof {
        assert(pattern@ =~= r"\s*"@ + escape_chars(comment_token@) + r"\s*"@ + escape_chars(
            keyword@,
        ) + r"\b:?[^\r\n]*"@);
    }
    build_case_insensitive(pattern.as_str())
}

/// The pattern of a `keyword-suffix` marker comment that follows `prefix`.
pub fn build_marker_pattern(comment_token: &str, keyword: &str, suffix: &str, prefix: &str) -> (r:
    Option<Matcher>)
    ensures
        r is Some <==> regex_compiles(marker_source(comment_token@, keyword@, suffix@, prefix@)),
        r matches Some(m) ==> m@ == marker_source(comment_token@, keyword@, suffix@, prefix@),
{
    let token_literal = regex_escape(comment_token);
    let keyword_literal = regex_escape(keyword);
    let mut pattern = String::from_str(prefix);
    pattern.append(token_literal.as_str());
    pattern.append(r"[ \t]*");
    pattern.append(keyword_literal.as_str());
    pattern.append("-");
    pattern.append(suffix);
    pattern.append(r"\b");
    proof {
        assert(pattern@ =~= prefix@ + escape_chars(comment_token@) + r"[ \t]*"@ + escape_chars(
            keyword@,
        ) + "-"@ + suffix@ + r"\b"@);
    }
    build_case_insensitive(pattern.as_str())
}

/// The pattern of a `keyword-suffix` marker comment that opens its line.
pub fn build_block_marker_pattern(comment_token: &str, keyword: &str, suffix: &str) -> (r: Option<
    Matcher,
>)
    ensures
        r is Some <==> regex_compiles(marker_source(comment_token@, keyword@, suffix@, r"^[ \t]*"@)),
        r matches Some(m) ==> m@ == marker_source(comment_token@, keyword@, suffix@, r"^[ \t]*"@),
{
    build_marker_pattern(comment_token, keyword, suffix, r"^[ \t]*")
}

/// The pattern of a `keyword-suffix` marker comment anywhere in a line.
pub fn build_inline_block_marker_pattern(comment_token: &str, keyword: &str, suffix: &str) -> (r:
    Option<Matcher>)
    ensures
        r is Some <==> regex_compiles(marker_source(comment_token@, keyword@, suffix@, ""@)),
        r matches Some(m) ==> m@ == marker_source(comment_token@, keyword@, suffix@, ""@),
{
    build_marker_pattern(comment_token, keyword, suffix, "")
}


/// Where the comment of a line starts.
#[derive(Debug, PartialEq, Eq, Structural)]
pub enum CommentStart {
    /// The comment token outside any quoted string starts at this byte offset.
    At(usize),
    /// The line has no comment token outside quoted strings, and its quotes balance.
    NoComment,
    /// A quoted string is still open at the end of the line.
    Unknown,
}

/// A byte that opens a quoted string: `"`, `'` or a backtick.
pub open spec fn is_quote(b: u8) -> bool {
    b == 34 || b == 39 || b == 96
}

/// Scans `line` from `index`, inside the string opened by `quote` if there
/// is one. Inside a string a backslash escapes the next byte and the opening
/// byte closes it; outside, the comment token starts the comment and a quote
/// byte opens a string.
pub open spec fn scan_comment_start(line: Seq<u8>, token: Seq<u8>, index: int, quote: Option<u8>) -> CommentStart
    decreases line.len() + 1 - index,
{
    if index < 0 || index >= line.len() {
        if quote is Some {
            CommentStart::Unknown
        } else {
            CommentStart::NoComment
        }
    } else {
        match quote {
            Some(q) => if line[index] == 92 {
                scan_comment_start(line, token, index + 2, quote)
            } else if line[index] == q {
                scan_comment_start(line, token, index + 1, Option::None)
            } else {
                scan_comment_start(line, token, index + 1, quote)
            },
            Option::None => if occurs_at(line, index, token) {
                CommentStart::At(index as usize)
            } else if is_quote(line[index]) {
                scan_comment_start(line, token, index + 1, Some(line[index]))
            } else {
                scan_comment_start(line, token, index + 1, Option::None)
            },
        }
    }
}

/// Where the comment of `line` starts, for the comment token `token`.
pub open spec fn comment_start(line: Seq<u8>, token: Seq<u8>) -> CommentStart {
    scan_comment_start(line, token, 0, Option::None)
}

proof fn lemma_scan_at_occurs(line: Seq<u8>, token: Seq<u8>, index: int, quote: Option<u8>)
    requires
        line.len() <= usize::MAX,
    ensures
        scan_comment_start(line, token, index, quote) matches CommentStart::At(i) ==> occurs_at(
            line,
            i as int,
            token,
        ),
    decreases line.len() + 1 - index,
{
    if 0 <= index < line.len() {
        match quote {
            Some(q) => if line[index] == 92 {
                lemma_scan_at_occurs(line, token, index + 2, quote);
            } else if line[index] == q {
                lemma_scan_at_occurs(line, token, index + 1, Option::None);
            } else {
                lemma_scan_at_occurs(line, token, index + 1, quote);
            },
            Option::None => if !occurs_at(line, index, token) {
                if is_quote(line[index]) {
                    lemma_scan_at_occurs(line, token, index + 1, Some(line[index]));
                } else {
                    lemma_scan_at_occurs(line, token, index + 1, Option::None);
                }
            },
        }
    }
}

/// Finds where the comment of `line` starts, skipping comment tokens inside
/// quoted strings.
pub fn find_comment_start(line: &[u8], comment_token: &[u8]) -> (r: CommentStart)
    ensures
        r == comment_start(line@, comment_token@),
        r matches CommentStart::At(i) ==> occurs_at(line@, i as int, comment_token@),
{
    let n = line.len();
    proof {
        lemma_scan_at_occurs(line@, comment_token@, 0, Option::None);
    }
    let mut quote: Option<u8> = Option::None;
    let mut index: usize = 0;
    while index < line.len()
        invariant
            n == line@.len(),
            index <= line@.len(),
            comment_start(line@, comment_token@) == scan_comment_start(
                line@,
                comment_token@,
                index as int,
                quote,
            ),
        decreases line@.len() - index,
    {
        match quote {
            Some(open_quote) => {
                let byte = line[index];
                if byte == 92 {
                    if index + 1 < line.len() {
                        index = index + 2;
                    } else {
                        assert(scan_comment_start(line@, comment_token@, index + 2, quote)
                            == scan_comment_start(line@, comment_token@, n as int, quote));
                        index = n;
                    }
                } else {
                    if byte == open_quote {
                        quote = Option::None;
                    }
                    index = index + 1;
                }
            },
            Option::None => {
                if occurs_at_exec(line, index, comment_token) {
                    return CommentStart::At(index);
                }
                let byte = line[index];
                if byte == 34 || byte == 39 || byte == 96 {
                    quote = Some(byte);
                }
                index = index + 1;
            },
        }
    }
    match quote {
        Some(_) => CommentStart::Unknown,
        Option::None => CommentStart::NoComment,
    }
}

/// `text` with the bytes `start..end` removed; nothing when what is left is blank.
pub open spec fn remove_span_spec(text: Seq<u8>, start: int, end: int) -> Seq<u8> {
    let rest = text.take(start) + text.skip(end);
    if is_blank(rest) {
        Seq::empty()
    } else {
        rest
    }
}

/// Appends the bytes of `src` to `out`.
fn push_bytes(out: &mut Vec<u8>, src: &[u8])
    ensures
        final(out)@ == old(out)@ + src@,
{
    let mut i: usize = 0;
    while i < src.len()
        invariant
            i <= src@.len(),
            out@ == old(out)@ + src@.take(i as int),
        decreases src@.len() - i,
    {
        out.push(src[i]);
        i = i + 1;
        assert(out@ =~= old(out)@ + src@.take(i as int));
    }
    assert(src@.take(i as int) =~= src@);
}

/// Removes the bytes `start..end` from `text`, which must both fall where a
/// character starts (or at the end); a result that is blank becomes empty, so
/// that the line is dropped.
pub fn remove_span(text: &[u8], start: usize, end: usize) -> (r: Vec<u8>)
    requires
        start <= end <= text@.len(),
        starts_char(text@, start as int),
        starts_char(text@, end as int),
    ensures
        r@ == remove_span_spec(text@, start as int, end as int),
{
    let mut stripped: Vec<u8> = Vec::new();
    push_bytes(&mut stripped, &text[0..start]);
    push_bytes(&mut stripped, &text[end..text.len()]);
    proof {
        assert(stripped@ =~= text@.take(start as int) + text@.skip(end as int));
        assert(stripped@.take(stripped@.len() as int) =~= stripped@);
    }
    let len = stripped.len();
    if trim_end_len_exec(stripped.as_slice(), len) == 0 {
        return Vec::new();
    }
    stripped
}

/// The offset of the comment whose opening decides the line: the comment
/// start, or, when a quoted string is left open, the first comment token.
pub open spec fn decisive_comment_start(line: Seq<u8>, token: Seq<u8>) -> Option<int> {
    match comment_start(line, token) {
        CommentStart::At(i) => Some(i as int),
        CommentStart::NoComment => Option::None,
        CommentStart::Unknown => first_occurrence(line, token),
    }
}

/// `text` without the comment that opens with the keyword, as the pattern
/// `pattern` finds it: the match must begin where the White_Space before
/// the comment begins, and both its ends must fall where characters start.
pub open spec fn stripped(text: Seq<u8>, pattern: Seq<char>, token: Seq<u8>) -> Seq<u8> {
    match decisive_comment_start(text, token) {
        Option::None => text,
        Some(start) => {
            let from = trim_end_len(text.take(start)) as int;
            match found_at(pattern, text, from) {
                Some((s, e)) => if s == from && starts_char(text, s) && starts_char(text, e) {
                    remove_span_spec(text, s, e)
                } else {
                    text
                },
                Option::None => text,
            }
        },
    }
}


/// Removes from `text` the comment that opens with the keyword, as
/// `pattern` (built by `build_keyword_comment_pattern`) finds it. A comment
/// that only mentions the keyword further along is left alone.
pub fn strip_keyword_comment(text: &[u8], pattern: &Matcher, comment_token: &[u8]) -> (r: Vec<u8>)
    ensures
        r@ == stripped(text@, pattern@, comment_token@),
{
    let comment_start = match find_comment_start(text, comment_token) {
        CommentStart::At(index) => index,
        CommentStart::NoComment => return vstd::slice::slice_to_vec(text),
        CommentStart::Unknown => match first_occurrence_exec(text, comment_token) {
            Some(index) => {
                proof {
                    lemma_first_occurrence_occurs(text@, comment_token@, 0);
                }
                index
            },
            Option::None => return vstd::slice::slice_to_vec(text),
        },
    };
    let search_from = trim_end_len_exec(text, comment_start);
    proof {
        lemma_trim_end_len_le(text@.take(comment_start as int));
    }
    match pattern.find_at(text, search_from) {
        Some((start, end)) => {
            if start == search_from && starts_char_exec(text, start) && starts_char_exec(text, end) {
                remove_span(text, start, end)
            } else {
                vstd::slice::slice_to_vec(text)
            }
        },
        Option::None => vstd::slice::slice_to_vec(text),
    }
}


/// Why text could not be processed.
#[derive(Debug)]
pub enum ProcessError {
    /// A `KEYWORD-BEGIN` block opened on `line` (counted from 1) was never closed.
    UnterminatedBlock { keyword: String, line: usize },
    /// The regex crate rejected a pattern built from the comment token and keyword.
    InvalidPattern,
}

/// The decimal digit `d` (below ten) as a character.
pub open spec fn digit_char(d: nat) -> char {
    if d == 0 {
        '0'
    } else if d == 1 {
        '1'
    } else if d == 2 {
        '2'
    } else if d == 3 {
        '3'
    } else if d == 4 {
        '4'
    } else if d == 5 {
        '5'
    } else if d == 6 {
        '6'
    } else if d == 7 {
        '7'
    } else if d == 8 {
        '8'
    } else {
        '9'
    }
}

/// `n` written in decimal, without leading zeros.
pub open spec fn decimal_text(n: nat) -> Seq<char>
    decreases n,
{
    if n < 10 {
        seq![digit_char(n)]
    } else {
        decimal_text(n / 10) + seq![digit_char(n % 10)]
    }
}

fn digit_str(d: usize) -> (r: &'static str)
    requires
        d < 10,
    ensures
        r@ == seq![digit_char(d as nat)],
{
    if d == 0 {
        proof { reveal_strlit("0"); }
        "0"
    } else if d == 1 {
        proof { reveal_strlit("1"); }
        "1"
    } else if d == 2 {
        proof { reveal_strlit("2"); }
        "2"
    } else if d == 3 {
        proof { reveal_strlit("3"); }
        "3"
    } else if d == 4 {
        proof { reveal_strlit("4"); }
        "4"
    } else if d == 5 {
        proof { reveal_strlit("5"); }
        "5"
    } else if d == 6 {
        proof { reveal_strlit("6"); }
        "6"
    } else if d == 7 {
        proof { reveal_strlit("7"); }
        "7"
    } else if d == 8 {
        proof { reveal_strlit("8"); }
        "8"
    } else {
        proof { reveal_strlit("9"); }
        "9"
    }
}

/// Appends `n` in decimal to `text`.
fn append_decimal(text: &mut String, n: usize)
    ensures
        final(text)@ == old(text)@ + decimal_text(n as nat),
    decreases n,
{
    if n >= 10 {
        append_decimal(text, n / 10);
    }
    text.append(digit_str(n % 10));
    proof {
        if n >= 10 {
            assert(final(text)@ =~= old(text)@ + decimal_text(n as nat));
        }
    }
}

impl ProcessError {
    /// The message that reports the error.
    pub open spec fn message(&self) -> Seq<char> {
        match self {
            ProcessError::UnterminatedBlock { keyword, line } => "unterminated "@ + keyword@
                + "-BEGIN block opened on line "@ + decimal_text(*line as nat)
                + " (expected a matching "@ + keyword@
                + "-END on a line of its own); no files were modified"@,
            ProcessError::InvalidPattern => "the comment token and keyword do not form a pattern the regex engine accepts; no files were modified"@,
        }
    }

    /// The message that reports the error.
    pub fn to_string(&self) -> (r: String)
        ensures
            r@ == self.message(),
    {
        match self {
            ProcessError::UnterminatedBlock { keyword, line } => {
                let mut text = String::from_str("unterminated ");
                text.append(keyword.as_str());
                text.append("-BEGIN block opened on line ");
                append_decimal(&mut text, *line);
                text.append(" (expected a matching ");
                text.append(keyword.as_str());
                text.append("-END on a line of its own); no files were modified");
                proof {
                    assert(text@ =~= self.message());
                }
                text
            },
            ProcessError::InvalidPattern => String::from_str(
                "the comment token and keyword do not form a pattern the regex engine accepts; no files were modified",
            ),
        }
    }
}

/// What a line contributes to the output, and whether a block is open after
/// it (with the number of the line that opened it). `line_no` counts from 1.
pub open spec fn process_line(
    token: Seq<char>,
    keyword: Seq<char>,
    line: Seq<u8>,
    line_no: nat,
    open: Option<nat>,
) -> (Seq<u8>, Option<nat>) {
    match open {
        Some(opened_at) => (
            Seq::empty(),
            if found_at(end_source(token, keyword), line, 0) is Some {
                Option::None
            } else {
                Some(opened_at)
            },
        ),
        Option::None => match found_at(begin_source(token, keyword), line, 0) {
            Some((_, marker_end)) => (
                Seq::empty(),
                if !(found_at(inline_end_source(token, keyword), line, marker_end) is Some) {
                    Some(line_no)
                } else {
                    Option::None
                },
            ),
            Option::None => (
                stripped(line, keyword_comment_source(token, keyword), encode_utf8(token)),
                Option::None,
            ),
        },
    }
}

/// The output of the lines of `text` from byte offset `pos` on, the first of
/// them numbered `line_no`, and the block left open at the end, if any.
pub open spec fn process_from(
    token: Seq<char>,
    keyword: Seq<char>,
    text: Seq<u8>,
    pos: int,
    line_no: nat,
    open: Option<nat>,
) -> (Seq<u8>, Option<nat>)
    decreases text.len() - pos,
{
    if pos < 0 || pos >= text.len() {
        (Seq::empty(), open)
    } else {
        proof {
            lemma_line_end_bounds(text, pos);
        }
        let end = line_end(text, pos);
        let (out, next_open) = process_line(
            token,
            keyword,
            text.subrange(pos, end),
            line_no,
            open,
        );
        let (rest, last_open) = process_from(token, keyword, text, end, line_no + 1, next_open);
        (out + rest, last_open)
    }
}

/// The output of all of `text`, and the block left open at its end.
pub open spec fn process_text(token: Seq<char>, keyword: Seq<char>, text: Seq<u8>) -> (
    Seq<u8>,
    Option<nat>,
) {
    process_from(token, keyword, text, 0, 1, Option::None)
}

/// The line that opened the current block, if one is open.
pub open spec fn open_line(open: Option<usize>) -> Option<nat> {
    match open {
        Some(l) => Some(l as nat),
        Option::None => Option::None,
    }
}

/// Writes `input` to `output` without its keyword comments and keyword
/// blocks. A block still open at the end of the input is an error that
/// names the line that opened it.
pub fn remove_matching_comments_from_stream(
    comment_token: &str,
    keyword: &str,
    input: &str,
    output: &mut Vec<u8>,
) -> (r: Result<(), ProcessError>)
    ensures
        !patterns_compile(comment_token@, keyword@) ==> (r matches Err(
            ProcessError::InvalidPattern,
        )) && final(output)@ == old(output)@,
        patterns_compile(comment_token@, keyword@) ==> {
            let (out, open) = process_text(comment_token@, keyword@, input.spec_bytes());
            &&& final(output)@ == old(output)@ + out
            &&& match open {
                Option::None => r is Ok,
                Some(opened_at) => (r matches Err(
                    ProcessError::UnterminatedBlock { keyword: k, line },
                ) && k@ == keyword@ && line == opened_at),
            }
        },
{
    let keyword_pattern = match build_keyword_comment_pattern(comment_token, keyword) {
        Some(p) => p,
        Option::None => return Err(ProcessError::InvalidPattern),
    };
    let begin_pattern = match build_block_marker_pattern(comment_token, keyword, BLOCK_BEGIN_SUFFIX) {
        Some(p) => p,
        Option::None => return Err(ProcessError::InvalidPattern),
    };
    let end_pattern = match build_block_marker_pattern(comment_token, keyword, BLOCK_END_SUFFIX) {
        Some(p) => p,
        Option::None => return Err(ProcessError::InvalidPattern),
    };
    let inline_end_pattern = match build_inline_block_marker_pattern(
        comment_token,
        keyword,
        BLOCK_END_SUFFIX,
    ) {
        Some(p) => p,
        Option::None => return Err(ProcessError::InvalidPattern),
    };
    let token = comment_token.as_bytes();
    let bytes = input.as_bytes();
    let ghost t = comment_token@;
    let ghost k = keyword@;
    let ghost total = process_text(t, k, bytes@);

    let mut open_block_line: Option<usize> = Option::None;
    let mut line_number: usize = 0;
    let mut pos: usize = 0;
    while pos < bytes.len()
        invariant
            pos <= bytes@.len(),
            line_number <= pos,
            token@ == encode_utf8(t),
            keyword_pattern@ == keyword_comment_source(t, k),
            begin_pattern@ == begin_source(t, k),
            end_pattern@ == end_source(t, k),
            inline_end_pattern@ == inline_end_source(t, k),
            total == process_text(t, k, bytes@),
            old(output)@ + total.0 == output@ + process_from(
                t,
                k,
                bytes@,
                pos as int,
                (line_number + 1) as nat,
                open_line(open_block_line),
            ).0,
            total.1 == process_from(
                t,
                k,
                bytes@,
                pos as int,
                (line_number + 1) as nat,
                open_line(open_block_line),
            ).1,
        decreases bytes@.len() - pos,
    {
        let end = line_end_exec(bytes, pos);
        let line = &bytes[pos..end];
        let ghost prev_output = output@;
        let ghost prev_open = open_line(open_block_line);
        line_number = line_number + 1;
        if open_block_line.is_some() {
            if end_pattern.is_match(line) {
                open_block_line = Option::None;
            }
        } else {
            match begin_pattern.find_at(line, 0) {
                Some((_, marker_end)) => {
                    if inline_end_pattern.find_at(line, marker_end).is_none() {
                        open_block_line = Some(line_number);
                    }
                },
                Option::None => {
                    let processed = strip_keyword_comment(line, &keyword_pattern, token);
                    push_bytes(output, processed.as_slice());
                },
            }
        }
        proof {
            let step = process_line(t, k, line@, line_number as nat, prev_open);
            assert(step.1 == open_line(open_block_line));
            assert(output@ == prev_output + step.0);
        }
        pos = end;
    }
    proof {
        assert(output@ =~= old(output)@ + total.0);
    }
    match open_block_line {
        Some(opened_at) => Err(
            ProcessError::UnterminatedBlock { keyword: String::from_str(keyword), line: opened_at },
        ),
        Option::None => Ok(()),
    }
}

} // verus!
