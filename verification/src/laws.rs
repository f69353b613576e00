//! Properties of the library as a whole, stated over the contracts' models
//! and proved.

use vstd::prelude::*;
use crate::comment::{
    ascii_lower_char, ascii_lowercase, insert_custom, normalized_key, resolver_table, token_for_ext,
    trim_chars, default_table,
};
use crate::processor::{
    decisive_comment_start, process_from, process_line, process_text, stripped,
};
use crate::text::{is_blank, lemma_line_end_bounds, line_end, trim_end_len, occurs_at};
use crate::processor::{
    begin_source, end_source, marker_source, remove_span_spec, comment_start,
    scan_comment_start, CommentStart,
};
use crate::config::first_set;

verus! {

/// `a` can be obtained from `b` by deleting bytes.
pub open spec fn is_subsequence(a: Seq<u8>, b: Seq<u8>) -> bool
    decreases b.len(),
{
    if a.len() == 0 {
        true
    } else if b.len() == 0 {
        false
    } else if a.last() == b.last() {
        is_subsequence(a.drop_last(), b.drop_last())
    } else {
        is_subsequence(a, b.drop_last())
    }
}

proof fn lemma_subsequence_push(a: Seq<u8>, b: Seq<u8>, x: u8)
    requires
        is_subsequence(a, b),
    ensures
        is_subsequence(a, b.push(x)),
    decreases 2 * b.len() + 1,
{
    assert(b.push(x).drop_last() =~= b);
    if a.len() > 0 && a.last() == x {
        lemma_subsequence_drop_last(a, b);
    }
}

proof fn lemma_subsequence_drop_last(a: Seq<u8>, b: Seq<u8>)
    requires
        is_subsequence(a, b),
        a.len() > 0,
    ensures
        is_subsequence(a.drop_last(), b),
    decreases 2 * b.len(),
{
    if b.len() > 0 {
        assert(b.drop_last().push(b.last()) =~= b);
        if a.last() == b.last() {
            lemma_subsequence_push(a.drop_last(), b.drop_last(), b.last());
        } else {
            lemma_subsequence_drop_last(a, b.drop_last());
            lemma_subsequence_push(a.drop_last(), b.drop_last(), b.last());
        }
    }
}

proof fn lemma_subsequence_extend(a: Seq<u8>, b: Seq<u8>, c: Seq<u8>)
    requires
        is_subsequence(a, b),
    ensures
        is_subsequence(a, b + c),
    decreases c.len(),
{
    if c.len() == 0 {
        assert(b + c =~= b);
    } else {
        lemma_subsequence_extend(a, b, c.drop_last());
        lemma_subsequence_push(a, b + c.drop_last(), c.last());
        assert((b + c.drop_last()).push(c.last()) =~= b + c);
    }
}

proof fn lemma_subsequence_refl(a: Seq<u8>)
    ensures
        is_subsequence(a, a),
    decreases a.len(),
{
    if a.len() > 0 {
        lemma_subsequence_refl(a.drop_last());
    }
}

proof fn lemma_subsequence_concat(a1: Seq<u8>, b1: Seq<u8>, a2: Seq<u8>, b2: Seq<u8>)
    requires
        is_subsequence(a1, b1),
        is_subsequence(a2, b2),
    ensures
        is_subsequence(a1 + a2, b1 + b2),
    decreases b2.len(),
{
    if a2.len() == 0 {
        assert(a1 + a2 =~= a1);
        lemma_subsequence_extend(a1, b1, b2);
    } else {
        assert((a1 + a2).drop_last() =~= a1 + a2.drop_last());
        assert((b1 + b2).drop_last() =~= b1 + b2.drop_last());
        if a2.last() == b2.last() {
            lemma_subsequence_concat(a1, b1, a2.drop_last(), b2.drop_last());
        } else {
            lemma_subsequence_concat(a1, b1, a2, b2.drop_last());
        }
    }
}

proof fn lemma_cut_is_subsequence(text: Seq<u8>, s: int, e: int)
    requires
        0 <= s <= e <= text.len(),
    ensures
        is_subsequence(text.take(s) + text.skip(e), text),
{
    lemma_subsequence_refl(text.take(s));
    lemma_subsequence_extend(text.take(s), text.take(s), text.subrange(s, e));
    assert(text.take(s) + text.subrange(s, e) =~= text.take(e));
    lemma_subsequence_refl(text.skip(e));
    lemma_subsequence_concat(text.take(s), text.take(e), text.skip(e), text.skip(e));
    assert(text.take(e) + text.skip(e) =~= text);
}

/// A line loses at most one run of bytes, and that run starts where the
/// White_Space before its comment starts: the code before the comment is
/// kept. Besides, what stripping leaves is the whole line, nothing, or a line
/// that is not blank.
pub proof fn law_strip_cuts_only_the_comment(text: Seq<u8>, pattern: Seq<char>, token: Seq<u8>)
    ensures
        ({
            let r = stripped(text, pattern, token);
            ||| r == text
            ||| r.len() == 0
            ||| (decisive_comment_start(text, token) matches Some(start) && {
                let from = trim_end_len(text.take(start)) as int;
                exists|e: int|
                    from <= e <= text.len() && r == text.take(from) + text.skip(e) && !is_blank(r)
            })
        }),
        is_subsequence(stripped(text, pattern, token), text),
{
    let r = stripped(text, pattern, token);
    match decisive_comment_start(text, token) {
        Option::None => {
            lemma_subsequence_refl(text);
        },
        Some(start) => {
            let from = trim_end_len(text.take(start)) as int;
            match crate::pattern::found_at(pattern, text, from) {
                Some((s, e)) => {
                    if s == from && crate::text::starts_char(text, s) && crate::text::starts_char(
                        text,
                        e,
                    ) {
                        lemma_cut_is_subsequence(text, s, e);
                        if r.len() != 0 {
                            assert(r == text.take(from) + text.skip(e));
                        }
                    } else {
                        lemma_subsequence_refl(text);
                    }
                },
                Option::None => {
                    lemma_subsequence_refl(text);
                },
            }
        },
    }
}

/// A line with no comment token outside quoted strings, and with balanced
/// quotes, is never changed by stripping: a keyword or a token inside a
/// string literal is not a comment.
pub proof fn law_line_without_comment_is_kept(text: Seq<u8>, pattern: Seq<char>, token: Seq<u8>)
    requires
        crate::processor::comment_start(text, token) == crate::processor::CommentStart::NoComment,
    ensures
        stripped(text, pattern, token) == text,
{
}

/// What a line contributes to the output is obtained from the line by deleting bytes.
pub proof fn law_line_output_is_subsequence(
    token: Seq<char>,
    keyword: Seq<char>,
    line: Seq<u8>,
    line_no: nat,
    open: Option<nat>,
)
    ensures
        is_subsequence(process_line(token, keyword, line, line_no, open).0, line),
{
    law_strip_cuts_only_the_comment(
        line,
        crate::processor::keyword_comment_source(token, keyword),
        vstd::utf8::encode_utf8(token),
    );
}

proof fn lemma_process_from_subsequence(
    token: Seq<char>,
    keyword: Seq<char>,
    text: Seq<u8>,
    pos: int,
    line_no: nat,
    open: Option<nat>,
)
    requires
        0 <= pos <= text.len(),
    ensures
        is_subsequence(process_from(token, keyword, text, pos, line_no, open).0, text.skip(pos)),
    decreases text.len() - pos,
{
    if pos < text.len() {
        lemma_line_end_bounds(text, pos);
        let end = line_end(text, pos);
        let step = process_line(token, keyword, text.subrange(pos, end), line_no, open);
        law_line_output_is_subsequence(token, keyword, text.subrange(pos, end), line_no, open);
        lemma_process_from_subsequence(token, keyword, text, end, line_no + 1, step.1);
        lemma_subsequence_concat(
            step.0,
            text.subrange(pos, end),
            process_from(token, keyword, text, end, line_no + 1, step.1).0,
            text.skip(end),
        );
        assert(text.subrange(pos, end) + text.skip(end) =~= text.skip(pos));
    } else {
        assert(process_from(token, keyword, text, pos, line_no, open).0.len() == 0);
    }
}

/// Processing only deletes: the output of a text is obtained from the text
/// by deleting bytes, so nothing is added, changed or reordered.
pub proof fn law_output_is_subsequence_of_input(token: Seq<char>, keyword: Seq<char>, text: Seq<u8>)
    ensures
        is_subsequence(process_text(token, keyword, text).0, text),
{
    lemma_process_from_subsequence(token, keyword, text, 0, 1, Option::None);
    assert(text.skip(0) =~= text);
}

/// Inside an open block every line is dropped, whatever it holds, and only
/// a line that starts with an END marker closes the block: markers do not nest.
pub proof fn law_open_block_drops_lines(
    token: Seq<char>,
    keyword: Seq<char>,
    line: Seq<u8>,
    line_no: nat,
    opened_at: nat,
)
    ensures
        process_line(token, keyword, line, line_no, Some(opened_at)).0.len() == 0,
        process_line(token, keyword, line, line_no, Some(opened_at)).1 is None <==> crate::pattern::found_at(
            crate::processor::end_source(token, keyword),
            line,
            0,
        ) is Some,
        process_line(token, keyword, line, line_no, Some(opened_at)).1 matches Some(l) ==> l
            == opened_at,
{
}


proof fn lemma_insert_custom_last_wins(
    m: Map<Seq<char>, Seq<char>>,
    pairs: Seq<(Seq<char>, Seq<char>)>,
    i: int,
)
    requires
        0 <= i < pairs.len(),
        trim_chars(pairs[i].1).len() > 0,
        forall|j: int|
            i < j < pairs.len() && normalized_key(pairs[j].0) == normalized_key(pairs[i].0) ==> trim_chars(
                pairs[j].1,
            ).len() == 0,
    ensures
        insert_custom(m, pairs).contains_key(normalized_key(pairs[i].0)),
        insert_custom(m, pairs)[normalized_key(pairs[i].0)] == trim_chars(pairs[i].1),
    decreases pairs.len(),
{
    if i < pairs.len() - 1 {
        lemma_insert_custom_last_wins(m, pairs.drop_last(), i);
    }
}

proof fn lemma_insert_custom_untouched(
    m: Map<Seq<char>, Seq<char>>,
    pairs: Seq<(Seq<char>, Seq<char>)>,
    key: Seq<char>,
)
    requires
        forall|j: int|
            0 <= j < pairs.len() && normalized_key(pairs[j].0) == key ==> trim_chars(
                pairs[j].1,
            ).len() == 0,
    ensures
        insert_custom(m, pairs).contains_key(key) == m.contains_key(key),
        m.contains_key(key) ==> insert_custom(m, pairs)[key] == m[key],
    decreases pairs.len(),
{
    if pairs.len() > 0 {
        lemma_insert_custom_untouched(m, pairs.drop_last(), key);
    }
}

/// The last configured pair whose token is not blank decides the token of
/// its extension: the key is trimmed, loses its leading dots and is
/// lower-cased, the token is trimmed, and it overrides the built-in table.
pub proof fn law_last_configured_pair_wins(pairs: Seq<(Seq<char>, Seq<char>)>, i: int)
    requires
        0 <= i < pairs.len(),
        trim_chars(pairs[i].1).len() > 0,
        forall|j: int|
            i < j < pairs.len() && normalized_key(pairs[j].0) == normalized_key(pairs[i].0) ==> trim_chars(
                pairs[j].1,
            ).len() == 0,
    ensures
        resolver_table(Some(pairs)).contains_key(normalized_key(pairs[i].0)),
        resolver_table(Some(pairs))[normalized_key(pairs[i].0)] == trim_chars(pairs[i].1),
{
    lemma_insert_custom_last_wins(default_table(), pairs, i);
}

/// Configured pairs whose token is blank once trimmed change nothing: an
/// extension that only such pairs name keeps its built-in token, or stays unknown.
pub proof fn law_blank_tokens_are_ignored(pairs: Seq<(Seq<char>, Seq<char>)>, key: Seq<char>)
    requires
        forall|j: int|
            0 <= j < pairs.len() && normalized_key(pairs[j].0) == key ==> trim_chars(
                pairs[j].1,
            ).len() == 0,
    ensures
        resolver_table(Some(pairs)).contains_key(key) == default_table().contains_key(key),
        default_table().contains_key(key) ==> resolver_table(Some(pairs))[key]
            == default_table()[key],
{
    lemma_insert_custom_untouched(default_table(), pairs, key);
}

/// Looking up an extension ignores its ASCII case.
pub proof fn law_lookup_ignores_ascii_case(table: Map<Seq<char>, Seq<char>>, ext: Seq<char>)
    ensures
        token_for_ext(table, ext) == token_for_ext(table, ascii_lowercase(ext)),
{
    assert(ascii_lowercase(ascii_lowercase(ext)) =~= ascii_lowercase(ext)) by {
        assert forall|i: int| 0 <= i < ext.len() implies ascii_lower_char(ascii_lower_char(ext[i]))
            == ascii_lower_char(ext[i]) by {
            let c = ext[i];
            if 'A' <= c && c <= 'Z' {
                assert(ascii_lower_char(c) as u32 == c as u32 + 32);
            }
        }
    }
}


/// The marker that closes a block admits the same leading indentation as
/// the one that opens it: both are the marker pattern after the same prefix,
/// and that prefix allows any run of spaces and tabs at the start of the line.
pub proof fn law_end_marker_indentation_matches_begin(token: Seq<char>, keyword: Seq<char>)
    ensures
        exists|prefix: Seq<char>|
            begin_source(token, keyword) == marker_source(token, keyword, "BEGIN"@, prefix)
                && end_source(token, keyword) == marker_source(token, keyword, "END"@, prefix),
        begin_source(token, keyword) == marker_source(token, keyword, "BEGIN"@, r"^[ \t]*"@),
        end_source(token, keyword) == marker_source(token, keyword, "END"@, r"^[ \t]*"@),
{
    let prefix = r"^[ \t]*"@;
    assert(begin_source(token, keyword) == marker_source(token, keyword, "BEGIN"@, prefix)
        && end_source(token, keyword) == marker_source(token, keyword, "END"@, prefix));
}

/// A run of ASCII White_Space bytes (tab, line feed, vertical tab, form
/// feed, carriage return, space) is blank, so a line left with nothing but
/// such bytes (say `"\r\n"`) counts as empty.
pub proof fn law_ascii_white_space_is_blank(s: Seq<u8>)
    requires
        forall|i: int|
            0 <= i < s.len() ==> (s[i] == 9 || s[i] == 10 || s[i] == 11 || s[i] == 12 || s[i]
                == 13 || s[i] == 32),
    ensures
        is_blank(s),
        trim_end_len(s) == 0,
    decreases s.len(),
{
    if s.len() > 0 {
        let t = s.take(s.len() - 1);
        assert forall|i: int| 0 <= i < t.len() implies (t[i] == 9 || t[i] == 10 || t[i] == 11
            || t[i] == 12 || t[i] == 13 || t[i] == 32) by {
            assert(t[i] == s[i]);
        }
        law_ascii_white_space_is_blank(t);
    }
}

/// Cutting a span out of a line that leaves only ASCII White_Space bytes
/// drops the line entirely.
pub proof fn law_cut_leaving_ascii_white_space_drops_line(text: Seq<u8>, start: int, end: int)
    requires
        0 <= start <= end <= text.len(),
        forall|i: int|
            0 <= i < (text.take(start) + text.skip(end)).len() ==> ({
                let b = #[trigger] (text.take(start) + text.skip(end))[i];
                b == 9 || b == 10 || b == 11 || b == 12 || b == 13 || b == 32
            }),
    ensures
        remove_span_spec(text, start, end) == Seq::<u8>::empty(),
{
    law_ascii_white_space_is_blank(text.take(start) + text.skip(end));
}

/// `c` shifted by `d` bytes.
pub open spec fn shifted(c: CommentStart, d: int) -> CommentStart {
    match c {
        CommentStart::At(i) => CommentStart::At((i + d) as usize),
        other => other,
    }
}

proof fn lemma_scan_suffix(
    prefix: Seq<u8>,
    rest: Seq<u8>,
    token: Seq<u8>,
    j: int,
    quote: Option<u8>,
)
    requires
        0 <= j,
        (prefix + rest).len() <= usize::MAX,
    ensures
        scan_comment_start(prefix + rest, token, prefix.len() + j, quote) == shifted(
            scan_comment_start(rest, token, j, quote),
            prefix.len() as int,
        ),
    decreases rest.len() + 1 - j,
{
    let whole = prefix + rest;
    let p = prefix.len() as int;
    if j < rest.len() {
        assert(whole[p + j] == rest[j]);
        assert(occurs_at(whole, p + j, token) == occurs_at(rest, j, token)) by {
            if j + token.len() <= rest.len() {
                assert(whole.subrange(p + j, p + j + token.len()) =~= rest.subrange(
                    j,
                    j + token.len(),
                ));
            }
        }
        match quote {
            Some(q) => {
                if rest[j] == 92 {
                    lemma_scan_suffix(prefix, rest, token, j + 2, quote);
                } else if rest[j] == q {
                    lemma_scan_suffix(prefix, rest, token, j + 1, Option::None);
                } else {
                    lemma_scan_suffix(prefix, rest, token, j + 1, quote);
                }
            },
            Option::None => {
                if !occurs_at(rest, j, token) {
                    if crate::processor::is_quote(rest[j]) {
                        lemma_scan_suffix(prefix, rest, token, j + 1, Some(rest[j]));
                    } else {
                        lemma_scan_suffix(prefix, rest, token, j + 1, Option::None);
                    }
                }
            },
        }
    }
}

proof fn lemma_scan_plain(s: Seq<u8>, token: Seq<u8>, i: int, end: int)
    requires
        0 <= i <= end <= s.len(),
        forall|k: int| i <= k < end ==> !occurs_at(s, k, token),
        forall|k: int| i <= k < end ==> s[k] != 34 && s[k] != 39 && s[k] != 96,
    ensures
        scan_comment_start(s, token, i, Option::None) == scan_comment_start(
            s,
            token,
            end,
            Option::None,
        ),
    decreases end - i,
{
    if i < end {
        lemma_scan_plain(s, token, i + 1, end);
    }
}

proof fn lemma_scan_quoted(s: Seq<u8>, token: Seq<u8>, i: int, end: int, q: u8)
    requires
        0 <= i <= end <= s.len(),
        forall|k: int| i <= k < end ==> s[k] != q && s[k] != 92,
    ensures
        scan_comment_start(s, token, i, Some(q)) == scan_comment_start(s, token, end, Some(q)),
    decreases end - i,
{
    if i < end {
        lemma_scan_quoted(s, token, i + 1, end, q);
    }
}

/// A comment token inside a quoted string, whether the quotes are `"`, `'`
/// or backticks, does not start the comment: the comment start of
/// `a + q + s + q + b` is that of `b`, shifted, when `a` holds no quote and
/// no token starts before the opening quote, and `s` holds neither the
/// quote nor a backslash.
pub proof fn law_quoted_token_is_not_a_comment(
    a: Seq<u8>,
    q: u8,
    s: Seq<u8>,
    b: Seq<u8>,
    token: Seq<u8>,
)
    requires
        q == 34 || q == 39 || q == 96,
        forall|k: int| 0 <= k < a.len() ==> a[k] != 34 && a[k] != 39 && a[k] != 96,
        forall|k: int| 0 <= k < s.len() ==> s[k] != q && s[k] != 92,
        forall|k: int|
            0 <= k <= a.len() ==> !occurs_at(a + seq![q] + s + seq![q] + b, k, token),
        (a + seq![q] + s + seq![q] + b).len() <= usize::MAX,
    ensures
        comment_start(a + seq![q] + s + seq![q] + b, token) == shifted(
            comment_start(b, token),
            (a.len() + s.len() + 2) as int,
        ),
{
    let line = a + seq![q] + s + seq![q] + b;
    let open_at = a.len() as int;
    let close_at = (a.len() + 1 + s.len()) as int;
    assert forall|k: int| 0 <= k < open_at implies line[k] != 34 && line[k] != 39 && line[k]
        != 96 by {
        assert(line[k] == a[k]);
    }
    lemma_scan_plain(line, token, 0, open_at);
    assert(line[open_at] == q);
    assert(scan_comment_start(line, token, open_at, Option::None) == scan_comment_start(
        line,
        token,
        open_at + 1,
        Some(q),
    ));
    assert forall|k: int| open_at + 1 <= k < close_at implies line[k] != q && line[k] != 92 by {
        assert(line[k] == s[k - open_at - 1]);
    }
    lemma_scan_quoted(line, token, open_at + 1, close_at, q);
    assert(line[close_at] == q);
    assert(scan_comment_start(line, token, close_at, Some(q)) == scan_comment_start(
        line,
        token,
        close_at + 1,
        Option::None,
    ));
    let prefix = a + seq![q] + s + seq![q];
    assert(line =~= prefix + b);
    assert(prefix.len() == close_at + 1);
    lemma_scan_suffix(prefix, b, token, 0, Option::None);
}

/// `first_set` finds the first set flag at any depth: it is `Some(i)`
/// exactly when flag `i` is set and no earlier flag is, and `None` exactly
/// when no flag is set.
pub proof fn law_first_set_is_the_first_set_flag(flags: Seq<bool>, i: int)
    ensures
        first_set(flags, 0) == Some(i) <==> (0 <= i < flags.len() && flags[i] && forall|j: int|
            0 <= j < i ==> !flags[j]),
        first_set(flags, 0) is None <==> forall|j: int| 0 <= j < flags.len() ==> !flags[j],
{
    lemma_first_set_from(flags, 0, i);
}

proof fn lemma_first_set_from(flags: Seq<bool>, from: int, i: int)
    requires
        0 <= from,
    ensures
        first_set(flags, from) == Some(i) <==> (from <= i < flags.len() && flags[i] && forall|
            j: int,
        |
            from <= j < i ==> !flags[j]),
        first_set(flags, from) is None <==> forall|j: int| from <= j < flags.len() ==> !flags[j],
    decreases flags.len() - from,
{
    if from < flags.len() && !flags[from] {
        lemma_first_set_from(flags, from + 1, i);
    }
}


proof fn lemma_insert_defaults_lookup(
    m: Map<Seq<char>, Seq<char>>,
    pairs: Seq<(Seq<char>, Seq<char>)>,
    i: int,
)
    requires
        0 <= i < pairs.len(),
        forall|j: int|
            i < j < pairs.len() ==> ascii_lowercase(pairs[j].0) != ascii_lowercase(pairs[i].0),
    ensures
        crate::comment::insert_defaults(m, pairs).contains_key(ascii_lowercase(pairs[i].0)),
        crate::comment::insert_defaults(m, pairs)[ascii_lowercase(pairs[i].0)] == pairs[i].1,
    decreases pairs.len(),
{
    if i < pairs.len() - 1 {
        lemma_insert_defaults_lookup(m, pairs.drop_last(), i);
    }
}

/// With no configuration, each extension of the documented table gets its
/// documented token: `//` for c, cc, cpp, cs, go, h, hpp, java, js, jsx, kt,
/// rs, swift, ts and tsx; `#` for py, rb, sh, bash, toml, yaml, yml and ini;
/// `--` for sql.
#[verifier::rlimit(60)]
pub proof fn law_default_tokens()
    ensures
        token_for_ext(default_table(), "c"@) == Some("//"@),
        token_for_ext(default_table(), "cc"@) == Some("//"@),
        token_for_ext(default_table(), "cpp"@) == Some("//"@),
        token_for_ext(default_table(), "cs"@) == Some("//"@),
        token_for_ext(default_table(), "go"@) == Some("//"@),
        token_for_ext(default_table(), "h"@) == Some("//"@),
        token_for_ext(default_table(), "hpp"@) == Some("//"@),
        token_for_ext(default_table(), "java"@) == Some("//"@),
        token_for_ext(default_table(), "js"@) == Some("//"@),
        token_for_ext(default_table(), "jsx"@) == Some("//"@),
        token_for_ext(default_table(), "kt"@) == Some("//"@),
        token_for_ext(default_table(), "rs"@) == Some("//"@),
        token_for_ext(default_table(), "swift"@) == Some("//"@),
        token_for_ext(default_table(), "ts"@) == Some("//"@),
        token_for_ext(default_table(), "tsx"@) == Some("//"@),
        token_for_ext(default_table(), "py"@) == Some("#"@),
        token_for_ext(default_table(), "rb"@) == Some("#"@),
        token_for_ext(default_table(), "sh"@) == Some("#"@),
        token_for_ext(default_table(), "bash"@) == Some("#"@),
        token_for_ext(default_table(), "toml"@) == Some("#"@),
        token_for_ext(default_table(), "yaml"@) == Some("#"@),
        token_for_ext(default_table(), "yml"@) == Some("#"@),
        token_for_ext(default_table(), "ini"@) == Some("#"@),
        token_for_ext(default_table(), "sql"@) == Some("--"@),
{
    reveal_strlit("c");
    reveal_strlit("cc");
    reveal_strlit("cpp");
    reveal_strlit("cs");
    reveal_strlit("go");
    reveal_strlit("h");
    reveal_strlit("hpp");
    reveal_strlit("java");
    reveal_strlit("js");
    reveal_strlit("jsx");
    reveal_strlit("kt");
    reveal_strlit("rs");
    reveal_strlit("swift");
    reveal_strlit("ts");
    reveal_strlit("tsx");
    reveal_strlit("py");
    reveal_strlit("rb");
    reveal_strlit("sh");
    reveal_strlit("bash");
    reveal_strlit("toml");
    reveal_strlit("yaml");
    reveal_strlit("yml");
    reveal_strlit("ini");
    reveal_strlit("sql");
    let pairs = crate::comment::default_pairs();
    assert forall|i: int| 0 <= i < pairs.len() implies ascii_lowercase(pairs[i].0) =~= pairs[i].0
        by {
        assert forall|k: int| 0 <= k < pairs[i].0.len() implies ascii_lower_char(pairs[i].0[k])
            == pairs[i].0[k] by {
        }
    }
    assert forall|j: int| #![trigger pairs[j]] 0 < j < pairs.len() implies ascii_lowercase(pairs[j].0) != ascii_lowercase(pairs[0].0) by {
        if j == 1 { assert(pairs[1].0.len() != pairs[0].0.len()); }
        if j == 2 { assert(pairs[2].0.len() != pairs[0].0.len()); }
        if j == 3 { assert(pairs[3].0.len() != pairs[0].0.len()); }
        if j == 4 { assert(pairs[4].0.len() != pairs[0].0.len()); }
        if j == 5 { assert(pairs[5].0[0] != pairs[0].0[0]); }
        if j == 6 { assert(pairs[6].0.len() != pairs[0].0.len()); }
        if j == 7 { assert(pairs[7].0.len() != pairs[0].0.len()); }
        if j == 8 { assert(pairs[8].0.len() != pairs[0].0.len()); }
        if j == 9 { assert(pairs[9].0.len() != pairs[0].0.len()); }
        if j == 10 { assert(pairs[10].0.len() != pairs[0].0.len()); }
        if j == 11 { assert(pairs[11].0.len() != pairs[0].0.len()); }
        if j == 12 { assert(pairs[12].0.len() != pairs[0].0.len()); }
        if j == 13 { assert(pairs[13].0.len() != pairs[0].0.len()); }
        if j == 14 { assert(pairs[14].0.len() != pairs[0].0.len()); }
        if j == 15 { assert(pairs[15].0.len() != pairs[0].0.len()); }
        if j == 16 { assert(pairs[16].0.len() != pairs[0].0.len()); }
        if j == 17 { assert(pairs[17].0.len() != pairs[0].0.len()); }
        if j == 18 { assert(pairs[18].0.len() != pairs[0].0.len()); }
        if j == 19 { assert(pairs[19].0.len() != pairs[0].0.len()); }
        if j == 20 { assert(pairs[20].0.len() != pairs[0].0.len()); }
        if j == 21 { assert(pairs[21].0.len() != pairs[0].0.len()); }
        if j == 22 { assert(pairs[22].0.len() != pairs[0].0.len()); }
        if j == 23 { assert(pairs[23].0.len() != pairs[0].0.len()); }
    }
    lemma_insert_defaults_lookup(Map::empty(), pairs, 0);
    assert(ascii_lowercase("c"@) == "c"@);
    assert forall|j: int| #![trigger pairs[j]] 1 < j < pairs.len() implies ascii_lowercase(pairs[j].0) != ascii_lowercase(pairs[1].0) by {
        if j == 2 { assert(pairs[2].0.len() != pairs[1].0.len()); }
        if j == 3 { assert(pairs[3].0[1] != pairs[1].0[1]); }
        if j == 4 { assert(pairs[4].0[0] != pairs[1].0[0]); }
        if j == 5 { assert(pairs[5].0.len() != pairs[1].0.len()); }
        if j == 6 { assert(pairs[6].0.len() != pairs[1].0.len()); }
        if j == 7 { assert(pairs[7].0.len() != pairs[1].0.len()); }
        if j == 8 { assert(pairs[8].0[0] != pairs[1].0[0]); }
        if j == 9 { assert(pairs[9].0.len() != pairs[1].0.len()); }
        if j == 10 { assert(pairs[10].0[0] != pairs[1].0[0]); }
        if j == 11 { assert(pairs[11].0[0] != pairs[1].0[0]); }
        if j == 12 { assert(pairs[12].0.len() != pairs[1].0.len()); }
        if j == 13 { assert(pairs[13].0[0] != pairs[1].0[0]); }
        if j == 14 { assert(pairs[14].0.len() != pairs[1].0.len()); }
        if j == 15 { assert(pairs[15].0[0] != pairs[1].0[0]); }
        if j == 16 { assert(pairs[16].0[0] != pairs[1].0[0]); }
        if j == 17 { assert(pairs[17].0[0] != pairs[1].0[0]); }
        if j == 18 { assert(pairs[18].0.len() != pairs[1].0.len()); }
        if j == 19 { assert(pairs[19].0.len() != pairs[1].0.len()); }
        if j == 20 { assert(pairs[20].0.len() != pairs[1].0.len()); }
        if j == 21 { assert(pairs[21].0.len() != pairs[1].0.len()); }
        if j == 22 { assert(pairs[22].0.len() != pairs[1].0.len()); }
        if j == 23 { assert(pairs[23].0.len() != pairs[1].0.len()); }
    }
    lemma_insert_defaults_lookup(Map::empty(), pairs, 1);
    assert(ascii_lowercase("cc"@) == "cc"@);
    assert forall|j: int| #![trigger pairs[j]] 2 < j < pairs.len() implies ascii_lowercase(pairs[j].0) != ascii_lowercase(pairs[2].0) by {
        if j == 3 { assert(pairs[3].0.len() != pairs[2].0.len()); }
        if j == 4 { assert(pairs[4].0.len() != pairs[2].0.len()); }
        if j == 5 { assert(pairs[5].0.len() != pairs[2].0.len()); }
        if j == 6 { assert(pairs[6].0[0] != pairs[2].0[0]); }
        if j == 7 { assert(pairs[7].0.len() != pairs[2].0.len()); }
        if j == 8 { assert(pairs[8].0.len() != pairs[2].0.len()); }
        if j == 9 { assert(pairs[9].0[0] != pairs[2].0[0]); }
        if j == 10 { assert(pairs[10].0.len() != pairs[2].0.len()); }
        if j == 11 { assert(pairs[11].0.len() != pairs[2].0.len()); }
        if j == 12 { assert(pairs[12].0.len() != pairs[2].0.len()); }
        if j == 13 { assert(pairs[13].0.len() != pairs[2].0.len()); }
        if j == 14 { assert(pairs[14].0[0] != pairs[2].0[0]); }
        if j == 15 { assert(pairs[15].0.len() != pairs[2].0.len()); }
        if j == 16 { assert(pairs[16].0.len() != pairs[2].0.len()); }
        if j == 17 { assert(pairs[17].0.len() != pairs[2].0.len()); }
        if j == 18 { assert(pairs[18].0.len() != pairs[2].0.len()); }
        if j == 19 { assert(pairs[19].0.len() != pairs[2].0.len()); }
        if j == 20 { assert(pairs[20].0.len() != pairs[2].0.len()); }
        if j == 21 { assert(pairs[21].0[0] != pairs[2].0[0]); }
        if j == 22 { assert(pairs[22].0[0] != pairs[2].0[0]); }
        if j == 23 { assert(pairs[23].0[0] != pairs[2].0[0]); }
    }
    lemma_insert_defaults_lookup(Map::empty(), pairs, 2);
    assert(ascii_lowercase("cpp"@) == "cpp"@);
    assert forall|j: int| #![trigger pairs[j]] 3 < j < pairs.len() implies ascii_lowercase(pairs[j].0) != ascii_lowercase(pairs[3].0) by {
        if j == 4 { assert(pairs[4].0[0] != pairs[3].0[0]); }
        if j == 5 { assert(pairs[5].0.len() != pairs[3].0.len()); }
        if j == 6 { assert(pairs[6].0.len() != pairs[3].0.len()); }
        if j == 7 { assert(pairs[7].0.len() != pairs[3].0.len()); }
        if j == 8 { assert(pairs[8].0[0] != pairs[3].0[0]); }
        if j == 9 { assert(pairs[9].0.len() != pairs[3].0.len()); }
        if j == 10 { assert(pairs[10].0[0] != pairs[3].0[0]); }
        if j == 11 { assert(pairs[11].0[0] != pairs[3].0[0]); }
        if j == 12 { assert(pairs[12].0.len() != pairs[3].0.len()); }
        if j == 13 { assert(pairs[13].0[0] != pairs[3].0[0]); }
        if j == 14 { assert(pairs[14].0.len() != pairs[3].0.len()); }
        if j == 15 { assert(pairs[15].0[0] != pairs[3].0[0]); }
        if j == 16 { assert(pairs[16].0[0] != pairs[3].0[0]); }
        if j == 17 { assert(pairs[17].0[0] != pairs[3].0[0]); }
        if j == 18 { assert(pairs[18].0.len() != pairs[3].0.len()); }
        if j == 19 { assert(pairs[19].0.len() != pairs[3].0.len()); }
        if j == 20 { assert(pairs[20].0.len() != pairs[3].0.len()); }
        if j == 21 { assert(pairs[21].0.len() != pairs[3].0.len()); }
        if j == 22 { assert(pairs[22].0.len() != pairs[3].0.len()); }
        if j == 23 { assert(pairs[23].0.len() != pairs[3].0.len()); }
    }
    lemma_insert_defaults_lookup(Map::empty(), pairs, 3);
    assert(ascii_lowercase("cs"@) == "cs"@);
    assert forall|j: int| #![trigger pairs[j]] 4 < j < pairs.len() implies ascii_lowercase(pairs[j].0) != ascii_lowercase(pairs[4].0) by {
        if j == 5 { assert(pairs[5].0.len() != pairs[4].0.len()); }
        if j == 6 { assert(pairs[6].0.len() != pairs[4].0.len()); }
        if j == 7 { assert(pairs[7].0.len() != pairs[4].0.len()); }
        if j == 8 { assert(pairs[8].0[0] != pairs[4].0[0]); }
        if j == 9 { assert(pairs[9].0.len() != pairs[4].0.len()); }
        if j == 10 { assert(pairs[10].0[0] != pairs[4].0[0]); }
        if j == 11 { assert(pairs[11].0[0] != pairs[4].0[0]); }
        if j == 12 { assert(pairs[12].0.len() != pairs[4].0.len()); }
        if j == 13 { assert(pairs[13].0[0] != pairs[4].0[0]); }
        if j == 14 { assert(pairs[14].0.len() != pairs[4].0.len()); }
        if j == 15 { assert(pairs[15].0[0] != pairs[4].0[0]); }
        if j == 16 { assert(pairs[16].0[0] != pairs[4].0[0]); }
        if j == 17 { assert(pairs[17].0[0] != pairs[4].0[0]); }
        if j == 18 { assert(pairs[18].0.len() != pairs[4].0.len()); }
        if j == 19 { assert(pairs[19].0.len() != pairs[4].0.len()); }
        if j == 20 { assert(pairs[20].0.len() != pairs[4].0.len()); }
        if j == 21 { assert(pairs[21].0.len() != pairs[4].0.len()); }
        if j == 22 { assert(pairs[22].0.len() != pairs[4].0.len()); }
        if j == 23 { assert(pairs[23].0.len() != pairs[4].0.len()); }
    }
    lemma_insert_defaults_lookup(Map::empty(), pairs, 4);
    assert(ascii_lowercase("go"@) == "go"@);
    assert forall|j: int| #![trigger pairs[j]] 5 < j < pairs.len() implies ascii_lowercase(pairs[j].0) != ascii_lowercase(pairs[5].0) by {
        if j == 6 { assert(pairs[6].0.len() != pairs[5].0.len()); }
        if j == 7 { assert(pairs[7].0.len() != pairs[5].0.len()); }
        if j == 8 { assert(pairs[8].0.len() != pairs[5].0.len()); }
        if j == 9 { assert(pairs[9].0.len() != pairs[5].0.len()); }
        if j == 10 { assert(pairs[10].0.len() != pairs[5].0.len()); }
        if j == 11 { assert(pairs[11].0.len() != pairs[5].0.len()); }
        if j == 12 { assert(pairs[12].0.len() != pairs[5].0.len()); }
        if j == 13 { assert(pairs[13].0.len() != pairs[5].0.len()); }
        if j == 14 { assert(pairs[14].0.len() != pairs[5].0.len()); }
        if j == 15 { assert(pairs[15].0.len() != pairs[5].0.len()); }
        if j == 16 { assert(pairs[16].0.len() != pairs[5].0.len()); }
        if j == 17 { assert(pairs[17].0.len() != pairs[5].0.len()); }
        if j == 18 { assert(pairs[18].0.len() != pairs[5].0.len()); }
        if j == 19 { assert(pairs[19].0.len() != pairs[5].0.len()); }
        if j == 20 { assert(pairs[20].0.len() != pairs[5].0.len()); }
        if j == 21 { assert(pairs[21].0.len() != pairs[5].0.len()); }
        if j == 22 { assert(pairs[22].0.len() != pairs[5].0.len()); }
        if j == 23 { assert(pairs[23].0.len() != pairs[5].0.len()); }
    }
    lemma_insert_defaults_lookup(Map::empty(), pairs, 5);
    assert(ascii_lowercase("h"@) == "h"@);
    assert forall|j: int| #![trigger pairs[j]] 6 < j < pairs.len() implies ascii_lowercase(pairs[j].0) != ascii_lowercase(pairs[6].0) by {
        if j == 7 { assert(pairs[7].0.len() != pairs[6].0.len()); }
        if j == 8 { assert(pairs[8].0.len() != pairs[6].0.len()); }
        if j == 9 { assert(pairs[9].0[0] != pairs[6].0[0]); }
        if j == 10 { assert(pairs[10].0.len() != pairs[6].0.len()); }
        if j == 11 { assert(pairs[11].0.len() != pairs[6].0.len()); }
        if j == 12 { assert(pairs[12].0.len() != pairs[6].0.len()); }
        if j == 13 { assert(pairs[13].0.len() != pairs[6].0.len()); }
        if j == 14 { assert(pairs[14].0[0] != pairs[6].0[0]); }
        if j == 15 { assert(pairs[15].0.len() != pairs[6].0.len()); }
        if j == 16 { assert(pairs[16].0.len() != pairs[6].0.len()); }
        if j == 17 { assert(pairs[17].0.len() != pairs[6].0.len()); }
        if j == 18 { assert(pairs[18].0.len() != pairs[6].0.len()); }
        if j == 19 { assert(pairs[19].0.len() != pairs[6].0.len()); }
        if j == 20 { assert(pairs[20].0.len() != pairs[6].0.len()); }
        if j == 21 { assert(pairs[21].0[0] != pairs[6].0[0]); }
        if j == 22 { assert(pairs[22].0[0] != pairs[6].0[0]); }
        if j == 23 { assert(pairs[23].0[0] != pairs[6].0[0]); }
    }
    lemma_insert_defaults_lookup(Map::empty(), pairs, 6);
    assert(ascii_lowercase("hpp"@) == "hpp"@);
    assert forall|j: int| #![trigger pairs[j]] 7 < j < pairs.len() implies ascii_lowercase(pairs[j].0) != ascii_lowercase(pairs[7].0) by {
        if j == 8 { assert(pairs[8].0.len() != pairs[7].0.len()); }
        if j == 9 { assert(pairs[9].0.len() != pairs[7].0.len()); }
        if j == 10 { assert(pairs[10].0.len() != pairs[7].0.len()); }
        if j == 11 { assert(pairs[11].0.len() != pairs[7].0.len()); }
        if j == 12 { assert(pairs[12].0.len() != pairs[7].0.len()); }
        if j == 13 { assert(pairs[13].0.len() != pairs[7].0.len()); }
        if j == 14 { assert(pairs[14].0.len() != pairs[7].0.len()); }
        if j == 15 { assert(pairs[15].0.len() != pairs[7].0.len()); }
        if j == 16 { assert(pairs[16].0.len() != pairs[7].0.len()); }
        if j == 17 { assert(pairs[17].0.len() != pairs[7].0.len()); }
        if j == 18 { assert(pairs[18].0[0] != pairs[7].0[0]); }
        if j == 19 { assert(pairs[19].0[0] != pairs[7].0[0]); }
        if j == 20 { assert(pairs[20].0[0] != pairs[7].0[0]); }
        if j == 21 { assert(pairs[21].0.len() != pairs[7].0.len()); }
        if j == 22 { assert(pairs[22].0.len() != pairs[7].0.len()); }
        if j == 23 { assert(pairs[23].0.len() != pairs[7].0.len()); }
    }
    lemma_insert_defaults_lookup(Map::empty(), pairs, 7);
    assert(ascii_lowercase("java"@) == "java"@);
    assert forall|j: int| #![trigger pairs[j]] 8 < j < pairs.len() implies ascii_lowercase(pairs[j].0) != ascii_lowercase(pairs[8].0) by {
        if j == 9 { assert(pairs[9].0.len() != pairs[8].0.len()); }
        if j == 10 { assert(pairs[10].0[0] != pairs[8].0[0]); }
        if j == 11 { assert(pairs[11].0[0] != pairs[8].0[0]); }
        if j == 12 { assert(pairs[12].0.len() != pairs[8].0.len()); }
        if j == 13 { assert(pairs[13].0[0] != pairs[8].0[0]); }
        if j == 14 { assert(pairs[14].0.len() != pairs[8].0.len()); }
        if j == 15 { assert(pairs[15].0[0] != pairs[8].0[0]); }
        if j == 16 { assert(pairs[16].0[0] != pairs[8].0[0]); }
        if j == 17 { assert(pairs[17].0[0] != pairs[8].0[0]); }
        if j == 18 { assert(pairs[18].0.len() != pairs[8].0.len()); }
        if j == 19 { assert(pairs[19].0.len() != pairs[8].0.len()); }
        if j == 20 { assert(pairs[20].0.len() != pairs[8].0.len()); }
        if j == 21 { assert(pairs[21].0.len() != pairs[8].0.len()); }
        if j == 22 { assert(pairs[22].0.len() != pairs[8].0.len()); }
        if j == 23 { assert(pairs[23].0.len() != pairs[8].0.len()); }
    }
    lemma_insert_defaults_lookup(Map::empty(), pairs, 8);
    assert(ascii_lowercase("js"@) == "js"@);
    assert forall|j: int| #![trigger pairs[j]] 9 < j < pairs.len() implies ascii_lowercase(pairs[j].0) != ascii_lowercase(pairs[9].0) by {
        if j == 10 { assert(pairs[10].0.len() != pairs[9].0.len()); }
        if j == 11 { assert(pairs[11].0.len() != pairs[9].0.len()); }
        if j == 12 { assert(pairs[12].0.len() != pairs[9].0.len()); }
        if j == 13 { assert(pairs[13].0.len() != pairs[9].0.len()); }
        if j == 14 { assert(pairs[14].0[0] != pairs[9].0[0]); }
        if j == 15 { assert(pairs[15].0.len() != pairs[9].0.len()); }
        if j == 16 { assert(pairs[16].0.len() != pairs[9].0.len()); }
        if j == 17 { assert(pairs[17].0.len() != pairs[9].0.len()); }
        if j == 18 { assert(pairs[18].0.len() != pairs[9].0.len()); }
        if j == 19 { assert(pairs[19].0.len() != pairs[9].0.len()); }
        if j == 20 { assert(pairs[20].0.len() != pairs[9].0.len()); }
        if j == 21 { assert(pairs[21].0[0] != pairs[9].0[0]); }
        if j == 22 { assert(pairs[22].0[0] != pairs[9].0[0]); }
        if j == 23 { assert(pairs[23].0[0] != pairs[9].0[0]); }
    }
    lemma_insert_defaults_lookup(Map::empty(), pairs, 9);
    assert(ascii_lowercase("jsx"@) == "jsx"@);
    assert forall|j: int| #![trigger pairs[j]] 10 < j < pairs.len() implies ascii_lowercase(pairs[j].0) != ascii_lowercase(pairs[10].0) by {
        if j == 11 { assert(pairs[11].0[0] != pairs[10].0[0]); }
        if j == 12 { assert(pairs[12].0.len() != pairs[10].0.len()); }
        if j == 13 { assert(pairs[13].0[0] != pairs[10].0[0]); }
        if j == 14 { assert(pairs[14].0.len() != pairs[10].0.len()); }
        if j == 15 { assert(pairs[15].0[0] != pairs[10].0[0]); }
        if j == 16 { assert(pairs[16].0[0] != pairs[10].0[0]); }
        if j == 17 { assert(pairs[17].0[0] != pairs[10].0[0]); }
        if j == 18 { assert(pairs[18].0.len() != pairs[10].0.len()); }
        if j == 19 { assert(pairs[19].0.len() != pairs[10].0.len()); }
        if j == 20 { assert(pairs[20].0.len() != pairs[10].0.len()); }
        if j == 21 { assert(pairs[21].0.len() != pairs[10].0.len()); }
        if j == 22 { assert(pairs[22].0.len() != pairs[10].0.len()); }
        if j == 23 { assert(pairs[23].0.len() != pairs[10].0.len()); }
    }
    lemma_insert_defaults_lookup(Map::empty(), pairs, 10);
    assert(ascii_lowercase("kt"@) == "kt"@);
    assert forall|j: int| #![trigger pairs[j]] 11 < j < pairs.len() implies ascii_lowercase(pairs[j].0) != ascii_lowercase(pairs[11].0) by {
        if j == 12 { assert(pairs[12].0.len() != pairs[11].0.len()); }
        if j == 13 { assert(pairs[13].0[0] != pairs[11].0[0]); }
        if j == 14 { assert(pairs[14].0.len() != pairs[11].0.len()); }
        if j == 15 { assert(pairs[15].0[0] != pairs[11].0[0]); }
        if j == 16 { assert(pairs[16].0[1] != pairs[11].0[1]); }
        if j == 17 { assert(pairs[17].0[0] != pairs[11].0[0]); }
        if j == 18 { assert(pairs[18].0.len() != pairs[11].0.len()); }
        if j == 19 { assert(pairs[19].0.len() != pairs[11].0.len()); }
        if j == 20 { assert(pairs[20].0.len() != pairs[11].0.len()); }
        if j == 21 { assert(pairs[21].0.len() != pairs[11].0.len()); }
        if j == 22 { assert(pairs[22].0.len() != pairs[11].0.len()); }
        if j == 23 { assert(pairs[23].0.len() != pairs[11].0.len()); }
    }
    lemma_insert_defaults_lookup(Map::empty(), pairs, 11);
    assert(ascii_lowercase("rs"@) == "rs"@);
    assert forall|j: int| #![trigger pairs[j]] 12 < j < pairs.len() implies ascii_lowercase(pairs[j].0) != ascii_lowercase(pairs[12].0) by {
        if j == 13 { assert(pairs[13].0.len() != pairs[12].0.len()); }
        if j == 14 { assert(pairs[14].0.len() != pairs[12].0.len()); }
        if j == 15 { assert(pairs[15].0.len() != pairs[12].0.len()); }
        if j == 16 { assert(pairs[16].0.len() != pairs[12].0.len()); }
        if j == 17 { assert(pairs[17].0.len() != pairs[12].0.len()); }
        if j == 18 { assert(pairs[18].0.len() != pairs[12].0.len()); }
        if j == 19 { assert(pairs[19].0.len() != pairs[12].0.len()); }
        if j == 20 { assert(pairs[20].0.len() != pairs[12].0.len()); }
        if j == 21 { assert(pairs[21].0.len() != pairs[12].0.len()); }
        if j == 22 { assert(pairs[22].0.len() != pairs[12].0.len()); }
        if j == 23 { assert(pairs[23].0.len() != pairs[12].0.len()); }
    }
    lemma_insert_defaults_lookup(Map::empty(), pairs, 12);
    assert(ascii_lowercase("swift"@) == "swift"@);
    assert forall|j: int| #![trigger pairs[j]] 13 < j < pairs.len() implies ascii_lowercase(pairs[j].0) != ascii_lowercase(pairs[13].0) by {
        if j == 14 { assert(pairs[14].0.len() != pairs[13].0.len()); }
        if j == 15 { assert(pairs[15].0[0] != pairs[13].0[0]); }
        if j == 16 { assert(pairs[16].0[0] != pairs[13].0[0]); }
        if j == 17 { assert(pairs[17].0[0] != pairs[13].0[0]); }
        if j == 18 { assert(pairs[18].0.len() != pairs[13].0.len()); }
        if j == 19 { assert(pairs[19].0.len() != pairs[13].0.len()); }
        if j == 20 { assert(pairs[20].0.len() != pairs[13].0.len()); }
        if j == 21 { assert(pairs[21].0.len() != pairs[13].0.len()); }
        if j == 22 { assert(pairs[22].0.len() != pairs[13].0.len()); }
        if j == 23 { assert(pairs[23].0.len() != pairs[13].0.len()); }
    }
    lemma_insert_defaults_lookup(Map::empty(), pairs, 13);
    assert(ascii_lowercase("ts"@) == "ts"@);
    assert forall|j: int| #![trigger pairs[j]] 14 < j < pairs.len() implies ascii_lowercase(pairs[j].0) != ascii_lowercase(pairs[14].0) by {
        if j == 15 { assert(pairs[15].0.len() != pairs[14].0.len()); }
        if j == 16 { assert(pairs[16].0.len() != pairs[14].0.len()); }
        if j == 17 { assert(pairs[17].0.len() != pairs[14].0.len()); }
        if j == 18 { assert(pairs[18].0.len() != pairs[14].0.len()); }
        if j == 19 { assert(pairs[19].0.len() != pairs[14].0.len()); }
        if j == 20 { assert(pairs[20].0.len() != pairs[14].0.len()); }
        if j == 21 { assert(pairs[21].0[0] != pairs[14].0[0]); }
        if j == 22 { assert(pairs[22].0[0] != pairs[14].0[0]); }
        if j == 23 { assert(pairs[23].0[0] != pairs[14].0[0]); }
    }
    lemma_insert_defaults_lookup(Map::empty(), pairs, 14);
    assert(ascii_lowercase("tsx"@) == "tsx"@);
    assert forall|j: int| #![trigger pairs[j]] 15 < j < pairs.len() implies ascii_lowercase(pairs[j].0) != ascii_lowercase(pairs[15].0) by {
        if j == 16 { assert(pairs[16].0[0] != pairs[15].0[0]); }
        if j == 17 { assert(pairs[17].0[0] != pairs[15].0[0]); }
        if j == 18 { assert(pairs[18].0.len() != pairs[15].0.len()); }
        if j == 19 { assert(pairs[19].0.len() != pairs[15].0.len()); }
        if j == 20 { assert(pairs[20].0.len() != pairs[15].0.len()); }
        if j == 21 { assert(pairs[21].0.len() != pairs[15].0.len()); }
        if j == 22 { assert(pairs[22].0.len() != pairs[15].0.len()); }
        if j == 23 { assert(pairs[23].0.len() != pairs[15].0.len()); }
    }
    lemma_insert_defaults_lookup(Map::empty(), pairs, 15);
    assert(ascii_lowercase("py"@) == "py"@);
    assert forall|j: int| #![trigger pairs[j]] 16 < j < pairs.len() implies ascii_lowercase(pairs[j].0) != ascii_lowercase(pairs[16].0) by {
        if j == 17 { assert(pairs[17].0[0] != pairs[16].0[0]); }
        if j == 18 { assert(pairs[18].0.len() != pairs[16].0.len()); }
        if j == 19 { assert(pairs[19].0.len() != pairs[16].0.len()); }
        if j == 20 { assert(pairs[20].0.len() != pairs[16].0.len()); }
        if j == 21 { assert(pairs[21].0.len() != pairs[16].0.len()); }
        if j == 22 { assert(pairs[22].0.len() != pairs[16].0.len()); }
        if j == 23 { assert(pairs[23].0.len() != pairs[16].0.len()); }
    }
    lemma_insert_defaults_lookup(Map::empty(), pairs, 16);
    assert(ascii_lowercase("rb"@) == "rb"@);
    assert forall|j: int| #![trigger pairs[j]] 17 < j < pairs.len() implies ascii_lowercase(pairs[j].0) != ascii_lowercase(pairs[17].0) by {
        if j == 18 { assert(pairs[18].0.len() != pairs[17].0.len()); }
        if j == 19 { assert(pairs[19].0.len() != pairs[17].0.len()); }
        if j == 20 { assert(pairs[20].0.len() != pairs[17].0.len()); }
        if j == 21 { assert(pairs[21].0.len() != pairs[17].0.len()); }
        if j == 22 { assert(pairs[22].0.len() != pairs[17].0.len()); }
        if j == 23 { assert(pairs[23].0.len() != pairs[17].0.len()); }
    }
    lemma_insert_defaults_lookup(Map::empty(), pairs, 17);
    assert(ascii_lowercase("sh"@) == "sh"@);
    assert forall|j: int| #![trigger pairs[j]] 18 < j < pairs.len() implies ascii_lowercase(pairs[j].0) != ascii_lowercase(pairs[18].0) by {
        if j == 19 { assert(pairs[19].0[0] != pairs[18].0[0]); }
        if j == 20 { assert(pairs[20].0[0] != pairs[18].0[0]); }
        if j == 21 { assert(pairs[21].0.len() != pairs[18].0.len()); }
        if j == 22 { assert(pairs[22].0.len() != pairs[18].0.len()); }
        if j == 23 { assert(pairs[23].0.len() != pairs[18].0.len()); }
    }
    lemma_insert_defaults_lookup(Map::empty(), pairs, 18);
    assert(ascii_lowercase("bash"@) == "bash"@);
    assert forall|j: int| #![trigger pairs[j]] 19 < j < pairs.len() implies ascii_lowercase(pairs[j].0) != ascii_lowercase(pairs[19].0) by {
        if j == 20 { assert(pairs[20].0[0] != pairs[19].0[0]); }
        if j == 21 { assert(pairs[21].0.len() != pairs[19].0.len()); }
        if j == 22 { assert(pairs[22].0.len() != pairs[19].0.len()); }
        if j == 23 { assert(pairs[23].0.len() != pairs[19].0.len()); }
    }
    lemma_insert_defaults_lookup(Map::empty(), pairs, 19);
    assert(ascii_lowercase("toml"@) == "toml"@);
    assert forall|j: int| #![trigger pairs[j]] 20 < j < pairs.len() implies ascii_lowercase(pairs[j].0) != ascii_lowercase(pairs[20].0) by {
        if j == 21 { assert(pairs[21].0.len() != pairs[20].0.len()); }
        if j == 22 { assert(pairs[22].0.len() != pairs[20].0.len()); }
        if j == 23 { assert(pairs[23].0.len() != pairs[20].0.len()); }
    }
    lemma_insert_defaults_lookup(Map::empty(), pairs, 20);
    assert(ascii_lowercase("yaml"@) == "yaml"@);
    assert forall|j: int| #![trigger pairs[j]] 21 < j < pairs.len() implies ascii_lowercase(pairs[j].0) != ascii_lowercase(pairs[21].0) by {
        if j == 22 { assert(pairs[22].0[0] != pairs[21].0[0]); }
        if j == 23 { assert(pairs[23].0[0] != pairs[21].0[0]); }
    }
    lemma_insert_defaults_lookup(Map::empty(), pairs, 21);
    assert(ascii_lowercase("yml"@) == "yml"@);
    assert forall|j: int| #![trigger pairs[j]] 22 < j < pairs.len() implies ascii_lowercase(pairs[j].0) != ascii_lowercase(pairs[22].0) by {
        if j == 23 { assert(pairs[23].0[0] != pairs[22].0[0]); }
    }
    lemma_insert_defaults_lookup(Map::empty(), pairs, 22);
    assert(ascii_lowercase("ini"@) == "ini"@);
    assert forall|j: int| #![trigger pairs[j]] 23 < j < pairs.len() implies ascii_lowercase(pairs[j].0) != ascii_lowercase(pairs[23].0) by {
    }
    lemma_insert_defaults_lookup(Map::empty(), pairs, 23);
    assert(ascii_lowercase("sql"@) == "sql"@);
}

} // verus!
