//! The run's settings: the keyword that marks removable comments, and the
//! extension-to-token pairs that extend the built-in table.

use vstd::prelude::*;
use vstd::string::StringExecFns;

verus! {

/// The keyword used when the configuration names none.
pub open spec fn default_keyword() -> Seq<char> {
    "FREO"@
}

/// Settings of a run.
pub struct AppConfig {
    keyword: String,
    comment_map: Option<Vec<(String, String)>>,
}

impl AppConfig {
    /// The keyword that marks removable comments.
    pub closed spec fn spec_keyword(&self) -> Seq<char> {
        self.keyword@
    }

    /// The extension-to-token pairs of the configuration, in their given order.
    pub closed spec fn spec_comment_map(&self) -> Option<Vec<(String, String)>> {
        self.comment_map
    }

    /// Builds the settings; a missing keyword falls back to `FREO`.
    pub fn new(keyword: Option<String>, comment_map: Option<Vec<(String, String)>>) -> (cfg: Self)
        ensures
            cfg.spec_keyword() == (match keyword {
                Some(k) => k@,
                None => default_keyword(),
            }),
            cfg.spec_comment_map() == comment_map,
    {
        let keyword = match keyword {
            Some(k) => k,
            None => String::from_str("FREO"),
        };
        AppConfig { keyword, comment_map }
    }

    /// The keyword that marks removable comments.
    pub fn keyword(&self) -> (k: &str)
        ensures
            k@ == self.spec_keyword(),
    {
        self.keyword.as_str()
    }

    /// The configured extension-to-token pairs, if any were given.
    pub fn comment_map(&self) -> (m: Option<&Vec<(String, String)>>)
        ensures
            match m {
                Some(v) => self.spec_comment_map() == Some(*v),
                None => self.spec_comment_map() is None,
            },
    {
        match &self.comment_map {
            Some(v) => Some(v),
            None => None,
        }
    }
}


/// Where the settings file `freo.json` is looked for.
#[derive(Debug, PartialEq, Eq, Structural)]
pub enum ConfigLocation {
    /// In the directory that `GITHUB_WORKSPACE` names.
    Workspace,
    /// In the ancestor of the current directory with this index (0 is the
    /// current directory itself, 1 its parent, ...): the nearest one that
    /// holds `.git`.
    Ancestor(usize),
    /// In the current directory, when no ancestor holds `.git`.
    CurrentDir,
    /// Relative to wherever the program runs, when the current directory is unknown.
    Bare,
}

/// The first index at or after `from` whose flag is set.
pub open spec fn first_set(flags: Seq<bool>, from: int) -> Option<int>
    decreases flags.len() - from,
{
    if from < 0 || from >= flags.len() {
        None
    } else if flags[from] {
        Some(from)
    } else {
        first_set(flags, from + 1)
    }
}

/// Decides where the settings are looked for: the workspace when
/// `GITHUB_WORKSPACE` is set; otherwise, when the current directory is
/// known, the nearest of its ancestors (itself first) that holds `.git`
/// (`has_git` holds one flag per ancestor, nearest first), or the current
/// directory when none does; otherwise a bare file name.
pub fn config_location(workspace_set: bool, has_git: Option<&Vec<bool>>) -> (r: ConfigLocation)
    ensures
        workspace_set ==> r == ConfigLocation::Workspace,
        !workspace_set ==> match has_git {
            None => r == ConfigLocation::Bare,
            Some(flags) => match first_set(flags@, 0) {
                Some(i) => r == ConfigLocation::Ancestor(i as usize),
                None => r == ConfigLocation::CurrentDir,
            },
        },
{
    if workspace_set {
        return ConfigLocation::Workspace;
    }
    match has_git {
        None => ConfigLocation::Bare,
        Some(flags) => {
            let mut i: usize = 0;
            while i < flags.len()
                invariant
                    !workspace_set,
                    has_git == Some(flags),
                    i <= flags@.len(),
                    first_set(flags@, 0) == first_set(flags@, i as int),
                decreases flags@.len() - i,
            {
                if flags[i] {
                    return ConfigLocation::Ancestor(i);
                }
                i = i + 1;
            }
            ConfigLocation::CurrentDir
        },
    }
}

} // verus!
