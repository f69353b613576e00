//! The table from file extensions to single-line comment tokens.

use std::path::Path;
use vstd::prelude::*;
use vstd::string::StringExecFns;

verus! {

/// A character with the Unicode White_Space property, as `char::is_whitespace` decides.
pub open spec fn is_white_space(c: char) -> bool {
    let u = c as u32;
    ||| (9 <= u && u <= 13)
    ||| u == 0x20
    ||| u == 0x85
    ||| u == 0xA0
    ||| u == 0x1680
    ||| (0x2000 <= u && u <= 0x200A)
    ||| u == 0x2028
    ||| u == 0x2029
    ||| u == 0x202F
    ||| u == 0x205F
    ||| u == 0x3000
}

/// `s` without its leading White_Space characters.
pub open spec fn trim_start_chars(s: Seq<char>) -> Seq<char>
    decreases s.len(),
{
    if s.len() > 0 && is_white_space(s[0]) {
        trim_start_chars(s.drop_first())
    } else {
        s
    }
}

/// `s` without its trailing White_Space characters.
pub open spec fn trim_end_chars(s: Seq<char>) -> Seq<char>
    decreases s.len(),
{
    if s.len() > 0 && is_white_space(s.last()) {
        trim_end_chars(s.drop_last())
    } else {
        s
    }
}

/// `s` without its leading and trailing White_Space characters.
pub open spec fn trim_chars(s: Seq<char>) -> Seq<char> {
    trim_end_chars(trim_start_chars(s))
}

/// `s` without its leading `.` characters.
pub open spec fn trim_leading_dots(s: Seq<char>) -> Seq<char>
    decreases s.len(),
{
    if s.len() > 0 && s[0] == '.' {
        trim_leading_dots(s.drop_first())
    } else {
        s
    }
}

/// `c` with an ASCII upper-case letter mapped to its lower-case letter.
pub open spec fn ascii_lower_char(c: char) -> char {
    if 'A' <= c && c <= 'Z' {
        ((c as u32) + 32) as char
    } else {
        c
    }
}

/// `s` with its ASCII upper-case letters mapped to lower case.
pub open spec fn ascii_lowercase(s: Seq<char>) -> Seq<char> {
    s.map_values(|c: char| ascii_lower_char(c))
}

/// Calls `str::trim`, which removes leading and trailing White_Space.
#[verifier::external_body]
fn str_trim(s: &str) -> (r: &str)
    ensures
        r@ == trim_chars(s@),
{
    s.trim()
}

/// Calls `str::trim_start_matches` with the pattern `'.'`, which removes
/// every leading `.`.
#[verifier::external_body]
fn str_trim_leading_dots(s: &str) -> (r: &str)
    ensures
        r@ == trim_leading_dots(s@),
{
    s.trim_start_matches('.')
}

/// Calls `str::to_ascii_lowercase`, which maps `A`..=`Z` to `a`..=`z` and
/// copies every other character.
#[verifier::external_body]
fn str_to_ascii_lowercase(s: &str) -> (r: String)
    ensures
        r@ == ascii_lowercase(s@),
{
    s.to_ascii_lowercase()
}

/// The extension that `Path::extension` finds in the path written `path`,
/// when that extension is valid UTF-8.
pub uninterp spec fn path_extension_of(path: Seq<char>) -> Option<Seq<char>>;

/// Calls `Path::extension` on the path written `path` (`Path::new` and
/// `OsStr::to_str` only convert): the result is the named extension. As the
/// extension is the part of the file name after its final `.`, it holds no `.`.
#[verifier::external_body]
fn path_extension(path: &str) -> (r: Option<&str>)
    ensures
        match r {
            Some(ext) => path_extension_of(path@) == Some(ext@) && !ext@.contains('.'),
            None => path_extension_of(path@) is None,
        },
{
    match Path::new(path).extension() {
        Some(ext) => ext.to_str(),
        None => None,
    }
}

/// The extensions and tokens known without configuration.
pub open spec fn default_pairs() -> Seq<(Seq<char>, Seq<char>)> {
    seq![
        ("c"@, "//"@),
        ("cc"@, "//"@),
        ("cpp"@, "//"@),
        ("cs"@, "//"@),
        ("go"@, "//"@),
        ("h"@, "//"@),
        ("hpp"@, "//"@),
        ("java"@, "//"@),
        ("js"@, "//"@),
        ("jsx"@, "//"@),
        ("kt"@, "//"@),
        ("rs"@, "//"@),
        ("swift"@, "//"@),
        ("ts"@, "//"@),
        ("tsx"@, "//"@),
        ("py"@, "#"@),
        ("rb"@, "#"@),
        ("sh"@, "#"@),
        ("bash"@, "#"@),
        ("toml"@, "#"@),
        ("yaml"@, "#"@),
        ("yml"@, "#"@),
        ("ini"@, "#"@),
        ("sql"@, "--"@),
    ]
}

/// The pairs of `pairs` as character sequences.
pub open spec fn str_pairs_view(pairs: Seq<(&str, &str)>) -> Seq<(Seq<char>, Seq<char>)> {
    pairs.map_values(|p: (&str, &str)| (p.0@, p.1@))
}

/// The pairs of `pairs` as character sequences.
pub open spec fn string_pairs_view(pairs: Seq<(String, String)>) -> Seq<(Seq<char>, Seq<char>)> {
    pairs.map_values(|p: (String, String)| (p.0@, p.1@))
}

/// The extensions and tokens known without configuration.
pub fn default_comment_tokens() -> (r: Vec<(&'static str, &'static str)>)
    ensures
        str_pairs_view(r@) == default_pairs(),
{
    let r = vec![
        ("c", "//"),
        ("cc", "//"),
        ("cpp", "//"),
        ("cs", "//"),
        ("go", "//"),
        ("h", "//"),
        ("hpp", "//"),
        ("java", "//"),
        ("js", "//"),
        ("jsx", "//"),
        ("kt", "//"),
        ("rs", "//"),
        ("swift", "//"),
        ("ts", "//"),
        ("tsx", "//"),
        ("py", "#"),
        ("rb", "#"),
        ("sh", "#"),
        ("bash", "#"),
        ("toml", "#"),
        ("yaml", "#"),
        ("yml", "#"),
        ("ini", "#"),
        ("sql", "--"),
    ];
    assert(str_pairs_view(r@) =~= default_pairs());
    r
}

/// The table after inserting `pairs` in order, each key lower-cased.
pub open spec fn insert_defaults(
    m: Map<Seq<char>, Seq<char>>,
    pairs: Seq<(Seq<char>, Seq<char>)>,
) -> Map<Seq<char>, Seq<char>>
    decreases pairs.len(),
{
    if pairs.len() == 0 {
        m
    } else {
        insert_defaults(m, pairs.drop_last()).insert(
            ascii_lowercase(pairs.last().0),
            pairs.last().1,
        )
    }
}

/// The table known without configuration.
pub open spec fn default_table() -> Map<Seq<char>, Seq<char>> {
    insert_defaults(Map::empty(), default_pairs())
}

/// The form of a configured extension used as a key: trimmed, without
/// leading dots, lower-cased.
pub open spec fn normalized_key(key: Seq<char>) -> Seq<char> {
    ascii_lowercase(trim_leading_dots(trim_chars(key)))
}

/// The table after the configured pairs, in order: a token that is blank
/// once trimmed is skipped; any other is trimmed and stored under the
/// normalized extension, replacing what was there.
pub open spec fn insert_custom(
    m: Map<Seq<char>, Seq<char>>,
    pairs: Seq<(Seq<char>, Seq<char>)>,
) -> Map<Seq<char>, Seq<char>>
    decreases pairs.len(),
{
    if pairs.len() == 0 {
        m
    } else {
        let before = insert_custom(m, pairs.drop_last());
        let token = trim_chars(pairs.last().1);
        if token.len() == 0 {
            before
        } else {
            before.insert(normalized_key(pairs.last().0), token)
        }
    }
}

/// The table built from the defaults and the configured pairs, if any.
pub open spec fn resolver_table(custom: Option<Seq<(Seq<char>, Seq<char>)>>) -> Map<Seq<char>, Seq<char>> {
    match custom {
        Some(pairs) => insert_custom(default_table(), pairs),
        None => default_table(),
    }
}

/// The token of `table` for the extension `ext`, compared case-insensitively.
pub open spec fn token_for_ext(table: Map<Seq<char>, Seq<char>>, ext: Seq<char>) -> Option<Seq<char>> {
    if table.contains_key(ascii_lowercase(ext)) {
        Some(table[ascii_lowercase(ext)])
    } else {
        None
    }
}

/// The table that a list of entries stands for: a later entry replaces an
/// earlier one with the same key.
pub open spec fn entries_table(entries: Seq<(String, String)>) -> Map<Seq<char>, Seq<char>>
    decreases entries.len(),
{
    if entries.len() == 0 {
        Map::empty()
    } else {
        entries_table(entries.drop_last()).insert(entries.last().0@, entries.last().1@)
    }
}

proof fn lemma_entries_table_last(entries: Seq<(String, String)>, key: Seq<char>, i: int)
    requires
        0 <= i < entries.len(),
        entries[i].0@ == key,
        forall|j: int| i < j < entries.len() ==> entries[j].0@ != key,
    ensures
        entries_table(entries).contains_key(key),
        entries_table(entries)[key] == entries[i].1@,
    decreases entries.len(),
{
    if i < entries.len() - 1 {
        lemma_entries_table_last(entries.drop_last(), key, i);
    }
}

proof fn lemma_entries_table_absent(entries: Seq<(String, String)>, key: Seq<char>)
    requires
        forall|j: int| 0 <= j < entries.len() ==> entries[j].0@ != key,
    ensures
        !entries_table(entries).contains_key(key),
    decreases entries.len(),
{
    if entries.len() > 0 {
        lemma_entries_table_absent(entries.drop_last(), key);
    }
}

/// Maps file extensions to the single-line comment token of their language.
pub struct CommentTokenResolver {
    lookup: Vec<(String, String)>,
}

impl View for CommentTokenResolver {
    type V = Map<Seq<char>, Seq<char>>;

    closed spec fn view(&self) -> Map<Seq<char>, Seq<char>> {
        entries_table(self.lookup@)
    }
}

/// The configured pairs, if any, as character sequences.
pub open spec fn custom_view(custom: Option<Vec<(String, String)>>) -> Option<Seq<(Seq<char>, Seq<char>)>> {
    match custom {
        Some(pairs) => Some(string_pairs_view(pairs@)),
        None => None,
    }
}

/// Trims `value`, drops its leading dots and lower-cases it.
pub fn normalize_extension_key(value: &str) -> (r: String)
    ensures
        r@ == normalized_key(value@),
{
    str_to_ascii_lowercase(str_trim_leading_dots(str_trim(value)))
}

impl CommentTokenResolver {
    /// The built-in table, extended and overridden by `custom_mappings`.
    pub fn new(custom_mappings: Option<Vec<(String, String)>>) -> (r: Self)
        ensures
            r@ == resolver_table(custom_view(custom_mappings)),
    {
        let mut lookup: Vec<(String, String)> = Vec::new();
        let defaults = default_comment_tokens();
        let mut i: usize = 0;
        while i < defaults.len()
            invariant
                i <= defaults@.len(),
                str_pairs_view(defaults@) == default_pairs(),
                entries_table(lookup@) == insert_defaults(
                    Map::empty(),
                    default_pairs().take(i as int),
                ),
            decreases defaults@.len() - i,
        {
            let (ext, token) = defaults[i];
            let ghost before = lookup@;
            lookup.push((str_to_ascii_lowercase(ext), String::from_str(token)));
            proof {
                assert(lookup@.drop_last() =~= before);
                assert(default_pairs().take(i + 1).drop_last() =~= default_pairs().take(i as int));
            }
            i = i + 1;
        }
        proof {
            assert(default_pairs().take(i as int) =~= default_pairs());
        }
        if let Some(custom) = custom_mappings {
            let ghost pairs = string_pairs_view(custom@);
            let mut j: usize = 0;
            while j < custom.len()
                invariant
                    j <= custom@.len(),
                    pairs == string_pairs_view(custom@),
                    entries_table(lookup@) == insert_custom(default_table(), pairs.take(j as int)),
                decreases custom@.len() - j,
            {
                let ghost before = lookup@;
                proof {
                    assert(pairs.take(j + 1).drop_last() =~= pairs.take(j as int));
                }
                let token = str_trim(custom[j].1.as_str());
                if !token.is_empty() {
                    let key = normalize_extension_key(custom[j].0.as_str());
                    lookup.push((key, String::from_str(token)));
                    proof {
                        assert(lookup@.drop_last() =~= before);
                    }
                }
                j = j + 1;
            }
            proof {
                assert(pairs.take(j as int) =~= pairs);
            }
        }
        CommentTokenResolver { lookup }
    }

    /// The token for the extension `ext`, compared case-insensitively.
    pub fn token_for_extension(&self, ext: &str) -> (r: Option<&str>)
        ensures
            match r {
                Some(token) => token_for_ext(self@, ext@) == Some(token@),
                None => token_for_ext(self@, ext@) is None,
            },
    {
        let key = str_to_ascii_lowercase(ext);
        let mut i = self.lookup.len();
        while i > 0
            invariant
                i <= self.lookup@.len(),
                key@ == ascii_lowercase(ext@),
                forall|j: int| i <= j < self.lookup@.len() ==> self.lookup@[j].0@ != key@,
            decreases i,
        {
            i = i - 1;
            if self.lookup[i].0 == key {
                proof {
                    lemma_entries_table_last(self.lookup@, key@, i as int);
                }
                return Some(self.lookup[i].1.as_str());
            }
        }
        proof {
            lemma_entries_table_absent(self.lookup@, key@);
        }
        None
    }

    /// The token for the extension of the path written `file_path`; `None`
    /// when the path has no (UTF-8) extension, or one that the table does not know.
    pub fn token_for(&self, file_path: &str) -> (r: Option<&str>)
        ensures
            match path_extension_of(file_path@) {
                Some(ext) => match r {
                    Some(token) => token_for_ext(self@, ext) == Some(token@),
                    None => token_for_ext(self@, ext) is None,
                },
                None => r is None,
            },
    {
        match path_extension(file_path) {
            Some(ext) => self.token_for_extension(ext),
            None => None,
        }
    }
}

} // verus!
