//! Persistent settings: theme, download behaviour, tokens, and the history of
//! opened repositories.
use vstd::prelude::*;
use crate::text::{chars_of, chars_eq_str};
use crate::providers::clone_opt_string;

verus! {

// ─── Theme names ──────────────────────────────────────────────────────────────

#[derive(Debug, Clone, Copy, PartialEq, Eq, Structural)]
pub enum ThemeName {
    Amber,
    Dracula,
    Nord,
    Gruvbox,
    Catppuccin,
    SkyBlue,
    TokyoNight,
    Ayu,
}

/// Position of a theme in the cycling order.
pub open spec fn theme_index(t: ThemeName) -> int {
    match t {
        ThemeName::Amber => 0,
        ThemeName::Dracula => 1,
        ThemeName::Nord => 2,
        ThemeName::Gruvbox => 3,
        ThemeName::Catppuccin => 4,
        ThemeName::SkyBlue => 5,
        ThemeName::TokyoNight => 6,
        ThemeName::Ayu => 7,
    }
}

pub open spec fn theme_at(i: int) -> ThemeName {
    if i == 0 {
        ThemeName::Amber
    } else if i == 1 {
        ThemeName::Dracula
    } else if i == 2 {
        ThemeName::Nord
    } else if i == 3 {
        ThemeName::Gruvbox
    } else if i == 4 {
        ThemeName::Catppuccin
    } else if i == 5 {
        ThemeName::SkyBlue
    } else if i == 6 {
        ThemeName::TokyoNight
    } else {
        ThemeName::Ayu
    }
}

pub open spec fn theme_str(t: ThemeName) -> Seq<char> {
    match t {
        ThemeName::Amber => "amber"@,
        ThemeName::Dracula => "dracula"@,
        ThemeName::Nord => "nord"@,
        ThemeName::Gruvbox => "gruvbox"@,
        ThemeName::Catppuccin => "catppuccin"@,
        ThemeName::SkyBlue => "skyblue"@,
        ThemeName::TokyoNight => "tokyonight"@,
        ThemeName::Ayu => "ayu"@,
    }
}

/// The theme called `s`; unknown names give the default, `amber`.
pub open spec fn theme_from_spec(s: Seq<char>) -> ThemeName {
    if s == "dracula"@ {
        ThemeName::Dracula
    } else if s == "nord"@ {
        ThemeName::Nord
    } else if s == "gruvbox"@ {
        ThemeName::Gruvbox
    } else if s == "catppuccin"@ {
        ThemeName::Catppuccin
    } else if s == "skyblue"@ {
        ThemeName::SkyBlue
    } else if s == "tokyonight"@ {
        ThemeName::TokyoNight
    } else if s == "ayu"@ {
        ThemeName::Ayu
    } else {
        ThemeName::Amber
    }
}

impl ThemeName {
    /// Names of all themes, in cycling order.
    pub fn all() -> (r: Vec<&'static str>)
        ensures
            r.len() == 8,
            forall|i: int| 0 <= i < 8 ==> #[trigger] r[i]@ == theme_str(theme_at(i)),
    {
        let r = vec!["amber", "dracula", "nord", "gruvbox", "catppuccin", "skyblue", "tokyonight", "ayu"];
        r
    }

    pub fn as_str(&self) -> (r: &'static str)
        ensures
            r@ == theme_str(*self),
    {
        match self {
            ThemeName::Amber => "amber",
            ThemeName::Dracula => "dracula",
            ThemeName::Nord => "nord",
            ThemeName::Gruvbox => "gruvbox",
            ThemeName::Catppuccin => "catppuccin",
            ThemeName::SkyBlue => "skyblue",
            ThemeName::TokyoNight => "tokyonight",
            ThemeName::Ayu => "ayu",
        }
    }

    pub fn from_str(s: &str) -> (r: ThemeName)
        ensures
            r == theme_from_spec(s@),
    {
        let v = chars_of(s);
        if chars_eq_str(&v, "dracula") {
            ThemeName::Dracula
        } else if chars_eq_str(&v, "nord") {
            ThemeName::Nord
        } else if chars_eq_str(&v, "gruvbox") {
            ThemeName::Gruvbox
        } else if chars_eq_str(&v, "catppuccin") {
            ThemeName::Catppuccin
        } else if chars_eq_str(&v, "skyblue") {
            ThemeName::SkyBlue
        } else if chars_eq_str(&v, "tokyonight") {
            ThemeName::TokyoNight
        } else if chars_eq_str(&v, "ayu") {
            ThemeName::Ayu
        } else {
            ThemeName::Amber
        }
    }

    /// The theme after this one in cycling order (the last wraps to the first).
    pub fn next(&self) -> (r: ThemeName)
        ensures
            theme_index(r) == (theme_index(*self) + 1) % 8,
    {
        match self {
            ThemeName::Amber => ThemeName::Dracula,
            ThemeName::Dracula => ThemeName::Nord,
            ThemeName::Nord => ThemeName::Gruvbox,
            ThemeName::Gruvbox => ThemeName::Catppuccin,
            ThemeName::Catppuccin => ThemeName::SkyBlue,
            ThemeName::SkyBlue => ThemeName::TokyoNight,
            ThemeName::TokyoNight => ThemeName::Ayu,
            ThemeName::Ayu => ThemeName::Amber,
        }
    }
}

/// Every theme is found again by its name.
pub proof fn lemma_theme_name_roundtrip(t: ThemeName)
    ensures
        theme_from_spec(theme_str(t)) == t,
{
    reveal_strlit("amber");
    reveal_strlit("dracula");
    reveal_strlit("nord");
    reveal_strlit("gruvbox");
    reveal_strlit("catppuccin");
    reveal_strlit("skyblue");
    reveal_strlit("tokyonight");
    reveal_strlit("ayu");
    assert("amber"@.len() == 5 && "dracula"@.len() == 7 && "nord"@.len() == 4 && "gruvbox"@.len() == 7);
    assert("catppuccin"@.len() == 10 && "skyblue"@.len() == 7 && "tokyonight"@.len() == 10 && "ayu"@.len() == 3);
    assert("dracula"@[0] == 'd' && "gruvbox"@[0] == 'g' && "skyblue"@[0] == 's');
    assert("catppuccin"@[0] == 'c' && "tokyonight"@[0] == 't');
    match t {
        ThemeName::Amber => {},
        ThemeName::Dracula => {},
        ThemeName::Nord => {},
        ThemeName::Gruvbox => {},
        ThemeName::Catppuccin => {},
        ThemeName::SkyBlue => {},
        ThemeName::TokyoNight => {},
        ThemeName::Ayu => {},
    }
}

/// Positions and themes correspond one to one.
pub proof fn lemma_theme_index(t: ThemeName)
    ensures
        0 <= theme_index(t) < 8,
        theme_at(theme_index(t)) == t,
{
}

// ─── Config ───────────────────────────────────────────────────────────────────

pub struct CoreConfig {
    pub theme: ThemeName,
    /// max concurrent downloads
    pub parallel: u8,
    /// retries per failed file
    pub retry_count: u8,
    pub recursive: bool,
    pub preserve_structure: bool,
    pub skip_existing: bool,
    pub download_path: Option<String>,
}

pub struct AuthConfig {
    pub github_token: Option<String>,
    pub gitlab_token: Option<String>,
    pub codeberg_token: Option<String>,
    pub gitea_token: Option<String>,
    pub gitea_url: Option<String>,
}

pub struct HistoryEntry {
    pub provider: String,
    pub owner: String,
    pub repo: String,
    pub branch: String,
    pub instance: Option<String>,
}

impl Clone for HistoryEntry {
    fn clone(&self) -> (r: Self)
        ensures
            r == *self,
    {
        HistoryEntry {
            provider: self.provider.clone(),
            owner: self.owner.clone(),
            repo: self.repo.clone(),
            branch: self.branch.clone(),
            instance: clone_opt_string(&self.instance),
        }
    }
}

pub struct History {
    /// most recent first
    pub entries: Vec<HistoryEntry>,
}

pub struct Config {
    pub core: CoreConfig,
    pub auth: AuthConfig,
    pub history: History,
}

/// Both entries name the same repository on the same provider and instance.
pub open spec fn same_repo(a: HistoryEntry, b: HistoryEntry) -> bool {
    a.provider@ == b.provider@ && a.owner@ == b.owner@ && a.repo@ == b.repo@ && match (
        a.instance,
        b.instance,
    ) {
        (Some(x), Some(y)) => x@ == y@,
        (None, None) => true,
        _ => false,
    }
}

/// History after opening `e`: `e` first, then the earlier entries for other repositories.
pub open spec fn pushed_history(old: Seq<HistoryEntry>, e: HistoryEntry) -> Seq<HistoryEntry> {
    seq![e] + old.filter(|x: HistoryEntry| !same_repo(x, e))
}

fn opt_eq(a: &Option<String>, b: &Option<String>) -> (r: bool)
    ensures
        r == match (*a, *b) {
            (Some(x), Some(y)) => x@ == y@,
            (None, None) => true,
            _ => false,
        },
{
    match a {
        Some(x) => match b {
            Some(y) => x.eq(y),
            None => false,
        },
        None => match b {
            Some(_) => false,
            None => true,
        },
    }
}

fn same_repo_exec(a: &HistoryEntry, b: &HistoryEntry) -> (r: bool)
    ensures
        r == same_repo(*a, *b),
{
    a.provider.eq(&b.provider) && a.owner.eq(&b.owner) && a.repo.eq(&b.repo) && opt_eq(
        &a.instance,
        &b.instance,
    )
}

impl Config {
    /// Settings before anything is saved.
    pub fn default_config() -> (r: Config)
        ensures
            r.core.theme == ThemeName::Amber,
            r.core.parallel == 8,
            r.core.retry_count == 3,
            !r.core.recursive,
            !r.core.preserve_structure,
            r.core.skip_existing,
            r.core.download_path is None,
            r.auth.github_token is None,
            r.auth.gitlab_token is None,
            r.auth.codeberg_token is None,
            r.auth.gitea_token is None,
            r.auth.gitea_url is None,
            r.history.entries@.len() == 0,
    {
        Config {
            core: CoreConfig {
                theme: ThemeName::Amber,
                parallel: 8,
                retry_count: 3,
                recursive: false,
                preserve_structure: false,
                skip_existing: true,
                download_path: None,
            },
            auth: AuthConfig {
                github_token: None,
                gitlab_token: None,
                codeberg_token: None,
                gitea_token: None,
                gitea_url: None,
            },
            history: History { entries: Vec::new() },
        }
    }

    /// Record an opened repository as the most recent history entry.
    pub fn push_history(&mut self, e: HistoryEntry)
        ensures
            final(self).history.entries@ == pushed_history(old(self).history.entries@, e),
            final(self).core == old(self).core,
            final(self).auth == old(self).auth,
    {
        let ghost old_entries = self.history.entries@;
        let ghost pred = |x: HistoryEntry| !same_repo(x, e);
        let mut kept: Vec<HistoryEntry> = Vec::new();
        kept.push(e.clone());
        let mut i: usize = 0;
        while i < self.history.entries.len()
            invariant
                i <= self.history.entries.len(),
                self.history.entries@ == old_entries,
                pred == (|x: HistoryEntry| !same_repo(x, e)),
                kept@ == seq![e] + old_entries.subrange(0, i as int).filter(pred),
            decreases self.history.entries.len() - i,
        {
            proof {
                reveal(Seq::filter);
                assert(old_entries.subrange(0, i + 1).drop_last() =~= old_entries.subrange(0, i as int));
                assert(old_entries.subrange(0, i + 1).last() == old_entries[i as int]);
            }
            if !same_repo_exec(&self.history.entries[i], &e) {
                let x = self.history.entries[i].clone();
                kept.push(x);
                proof {
                    assert(pred(old_entries[i as int]));
                    assert(old_entries.subrange(0, i + 1).filter(pred) == old_entries.subrange(0, i as int).filter(pred).push(old_entries[i as int]));
                    assert(kept@ =~= seq![e] + old_entries.subrange(0, i + 1).filter(pred));
                }
            } else {
                proof {
                    assert(!pred(old_entries[i as int]));
                    assert(old_entries.subrange(0, i + 1).filter(pred) == old_entries.subrange(0, i as int).filter(pred));
                    assert(kept@ =~= seq![e] + old_entries.subrange(0, i + 1).filter(pred));
                }
            }
            i += 1;
        }
        proof {
            assert(old_entries.subrange(0, old_entries.len() as int) =~= old_entries);
        }
        self.history.entries = kept;
    }
}

} // verus!
