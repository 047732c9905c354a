//! Keys on the home screen: the repository input, its suggestions and the shortcuts.
use vstd::prelude::*;
use crate::app::{App, Screen};
use crate::app_actions::{load_repo_rel, next_theme_rel};
use crate::app_complete::{autocomplete_rel, short_name};
use crate::input::{
    utf8_len, prefix_bytes, is_boundary, boundary_index, last_before, char_width, inserted,
    byte_len_of, boundary_at, last_before_exec, utf8_len_exec, insert_char, remove_char,
    char_width_exec, lemma_inserted_prefix, lemma_removed_prefix, lemma_boundary_index,
};
use crate::config::HistoryEntry;
use crate::providers::{parse_url, parse_url_spec, default_gitea, ProviderKind};
use crate::text::{
    chars_of, chars_eq_str, string_of, copy_range, push_str, trim, trim_chars, trim_end_char, trim_end_char_chars,
};

verus! {

pub open spec fn opt_sv(o: Option<String>) -> Option<Seq<char>> {
    match o {
        Some(s) => Some(s@),
        None => None,
    }
}

/// Message shown when the input names no repository.
pub open spec fn invalid_url_msg() -> Seq<char> {
    "invalid URL — try github.com/owner/repo"@
}

/// `b` is `a` after opening the repository that `s` names; nothing happens when it names none.
pub open spec fn open_named_rel(a: App, s: Seq<char>, b: App) -> bool {
    match parse_url_spec(s, opt_sv(a.config.auth.gitea_url)) {
        Some((k, o, r, i)) => {
            &&& load_repo_rel(a, k, b.owner, b.repo, b.instance_url, b)
            &&& b.owner@ == o
            &&& b.repo@ == r
            &&& opt_sv(b.instance_url) == i
        },
        None => b == a,
    }
}

/// The Gitea instance of a history entry: the one recorded with it, else the configured
/// one, else the public instance.
pub open spec fn entry_instance(a: App, h: HistoryEntry) -> Seq<char> {
    match h.instance {
        Some(i) => i@,
        None => match a.config.auth.gitea_url {
            Some(g) => g@,
            None => default_gitea(),
        },
    }
}

/// Provider of a history entry, by the name recorded with it (GitHub for any other name).
pub open spec fn entry_kind(p: Seq<char>) -> ProviderKind {
    if p == "gitlab"@ {
        ProviderKind::GitLab
    } else if p == "codeberg"@ {
        ProviderKind::Codeberg
    } else if p == "gitea"@ {
        ProviderKind::Gitea
    } else {
        ProviderKind::GitHub
    }
}

/// Instance a history entry is opened on: for a Gitea entry its instance without trailing
/// slashes, for the others none.
pub open spec fn entry_inst(a: App, h: HistoryEntry) -> Option<Seq<char>> {
    if entry_kind(h.provider@) == ProviderKind::Gitea {
        Some(trim_end_char(entry_instance(a, h), '/'))
    } else {
        None
    }
}

/// `b` is `a` after opening recent repository `h` itself: its provider, owner and
/// repository, on its instance.
pub open spec fn open_entry_rel(a: App, h: HistoryEntry, b: App) -> bool {
    &&& load_repo_rel(a, entry_kind(h.provider@), b.owner, b.repo, b.instance_url, b)
    &&& b.owner@ == h.owner@
    &&& b.repo@ == h.repo@
    &&& opt_sv(b.instance_url) == entry_inst(a, h)
}

/// `b` is `a` with suggestion `i` taken as the input, the cursor at its end and the
/// suggestions closed.
pub open spec fn accept_rel(a: App, i: int, b: App) -> bool {
    let s = a.autocomplete_suggestions@[i];
    &&& b == (App {
        input: b.input,
        input_cursor: utf8_len(s@) as usize,
        autocomplete_suggestions: b.autocomplete_suggestions,
        autocomplete_idx: None,
        ..a
    })
    &&& b.input@ == s@
    &&& b.autocomplete_suggestions@.len() == 0
}

/// `accept_rel` for the highlighted suggestion (the first when none is highlighted), when
/// there is one.
pub open spec fn accept_current_rel(a: App, b: App) -> bool {
    let i = match a.autocomplete_idx {
        Some(i) => i as int,
        None => 0,
    };
    if i < a.autocomplete_suggestions@.len() {
        accept_rel(a, i, b)
    } else {
        b == a
    }
}

/// History slot of a digit key (`'1'` is the first entry).
pub open spec fn history_slot(c: char) -> int {
    c as int - '1' as int
}

/// A character typed on the home screen that acts as a shortcut rather than text.
pub open spec fn home_shortcut(a: App, c: char) -> bool {
    &&& a.input@.len() == 0
    &&& (c == 'q' || c == 'Q' || c == 'C' || c == 'T' || ('1' <= c <= '6' && history_slot(c)
        < a.history@.len()))
}

/// `b` is `a` after typing `c` at the cursor.
pub open spec fn insert_rel(a: App, c: char, b: App) -> bool {
    let k = boundary_index(a.input@, a.input_cursor as int);
    &&& b.input@ == inserted(a.input@, k, c)
    &&& autocomplete_rel(
        App { input: b.input, input_cursor: (a.input_cursor + char_width(c)) as usize, error: None, ..a },
        b,
    )
}

/// `b` is `a` after deleting the character before the cursor (if any).
pub open spec fn backspace_rel(a: App, b: App) -> bool {
    if a.input_cursor > 0 {
        let k = last_before(a.input@, a.input_cursor as int, 0);
        &&& b.input@ == a.input@.remove(k)
        &&& autocomplete_rel(App { input: b.input, input_cursor: prefix_bytes(a.input@, k) as usize, ..a }, b)
    } else {
        autocomplete_rel(a, b)
    }
}

pub open spec fn home_char_rel(a: App, c: char, b: App, quit: bool) -> bool {
    if a.input@.len() == 0 && (c == 'q' || c == 'Q') {
        quit && b == a
    } else if a.input@.len() == 0 && c == 'C' {
        !quit && b == (App { screen: Screen::Config, ..a })
    } else if a.input@.len() == 0 && c == 'T' {
        !quit && next_theme_rel(a, b)
    } else if home_shortcut(a, c) {
        !quit && open_entry_rel(a, a.history@[history_slot(c)], b)
    } else {
        !quit && insert_rel(a, c, b)
    }
}

pub open spec fn home_up_rel(a: App, b: App) -> bool {
    let n = a.autocomplete_suggestions@.len();
    if n > 0 {
        b == (App {
            autocomplete_idx: Some(
                (match a.autocomplete_idx {
                    Some(i) => if i == 0 {
                        n - 1
                    } else {
                        i - 1
                    },
                    None => n - 1,
                }) as usize,
            ),
            ..a
        })
    } else if a.history@.len() > 0 {
        let s = short_name(a.history@[0]);
        &&& b.input@ == s
        &&& autocomplete_rel(App { input: b.input, input_cursor: utf8_len(s) as usize, ..a }, b)
    } else {
        b == a
    }
}

pub open spec fn home_down_rel(a: App, b: App) -> bool {
    let n = a.autocomplete_suggestions@.len();
    if n > 0 {
        b == (App {
            autocomplete_idx: Some(
                (match a.autocomplete_idx {
                    Some(i) => (i + 1) % (n as int),
                    None => 0,
                }) as usize,
            ),
            ..a
        })
    } else {
        b == a
    }
}

pub open spec fn home_enter_rel(a: App, b: App) -> bool {
    if a.autocomplete_idx matches Some(i) && i < a.autocomplete_suggestions@.len() {
        accept_rel(a, a.autocomplete_idx->0 as int, b)
    } else {
        let s = trim(a.input@);
        if parse_url_spec(s, opt_sv(a.config.auth.gitea_url)) is Some {
            open_named_rel(a, s, b)
        } else if s.len() > 0 {
            &&& b == (App { error: b.error, ..a })
            &&& b.error matches Some(e) && e@ == invalid_url_msg()
        } else {
            b == a
        }
    }
}

pub open spec fn home_esc_rel(a: App, b: App, quit: bool) -> bool {
    if a.autocomplete_suggestions@.len() > 0 {
        &&& !quit
        &&& b == (App { autocomplete_suggestions: b.autocomplete_suggestions, autocomplete_idx: None, ..a })
        &&& b.autocomplete_suggestions@.len() == 0
    } else if a.input@.len() > 0 {
        &&& !quit
        &&& b == (App {
            input: b.input,
            input_cursor: 0,
            autocomplete_suggestions: b.autocomplete_suggestions,
            autocomplete_idx: None,
            ..a
        })
        &&& b.input@.len() == 0
        &&& b.autocomplete_suggestions@.len() == 0
    } else {
        quit && b == a
    }
}

pub open spec fn home_right_rel(a: App, b: App) -> bool {
    let len = utf8_len(a.input@);
    if a.input_cursor == len && a.autocomplete_suggestions@.len() > 0 {
        accept_current_rel(a, b)
    } else if a.input_cursor < len {
        b == (App { input_cursor: (a.input_cursor + 1) as usize, ..a })
    } else {
        b == a
    }
}

/// `b` is `a` after key `code` on the home screen; `quit` when the key ends the program.
pub open spec fn key_home_rel(a: App, code: crate::app::KeyCode, b: App, quit: bool) -> bool {
    match code {
        crate::app::KeyCode::Char(c) => home_char_rel(a, c, b, quit),
        crate::app::KeyCode::Tab => !quit && accept_current_rel(a, b),
        crate::app::KeyCode::Backspace => !quit && backspace_rel(a, b),
        crate::app::KeyCode::Left => !quit && b == (App {
            input_cursor: if a.input_cursor > 0 {
                (a.input_cursor - 1) as usize
            } else {
                0
            },
            ..a
        }),
        crate::app::KeyCode::Right => !quit && home_right_rel(a, b),
        crate::app::KeyCode::Home => !quit && b == (App { input_cursor: 0, ..a }),
        crate::app::KeyCode::End => !quit && b == (App { input_cursor: utf8_len(a.input@) as usize, ..a }),
        crate::app::KeyCode::Up => !quit && home_up_rel(a, b),
        crate::app::KeyCode::Down => !quit && home_down_rel(a, b),
        crate::app::KeyCode::Enter => !quit && home_enter_rel(a, b),
        crate::app::KeyCode::Esc => home_esc_rel(a, b, quit),
        crate::app::KeyCode::F(5) => !quit && b == (App { screen: Screen::Config, ..a }),
        _ => !quit && b == a,
    }
}

/// Typing `c` needs the cursor on a character boundary.
pub open spec fn home_key_ok(a: App, code: crate::app::KeyCode) -> bool {
    code matches crate::app::KeyCode::Char(c) && !home_shortcut(a, c) ==> is_boundary(
        a.input@,
        a.input_cursor as int,
    )
}

impl App {
    /// Open recent repository `idx` of the history.
    fn open_entry(&mut self, idx: usize)
        requires
            old(self).wf(),
            idx < old(self).history@.len(),
        ensures
            open_entry_rel(*old(self), old(self).history@[idx as int], *final(self)),
            final(self).wf(),
    {
        let h = self.history[idx].clone();
        let ghost hv = self.history@[idx as int];
        assert(h == hv);
        let pv = chars_of(h.provider.as_str());
        let kind = if chars_eq_str(&pv, "gitlab") {
            ProviderKind::GitLab
        } else if chars_eq_str(&pv, "codeberg") {
            ProviderKind::Codeberg
        } else if chars_eq_str(&pv, "gitea") {
            ProviderKind::Gitea
        } else {
            ProviderKind::GitHub
        };
        assert(kind == entry_kind(hv.provider@));
        let inst: Option<String> = if matches!(kind, ProviderKind::Gitea) {
            let raw: Vec<char> = match &h.instance {
                Some(i) => chars_of(i.as_str()),
                None => match &self.config.auth.gitea_url {
                    Some(g) => chars_of(g.as_str()),
                    None => chars_of("https://gitea.com"),
                },
            };
            proof {
                reveal_strlit("https://gitea.com");
                assert(raw@ == entry_instance(*self, hv));
            }
            let t = trim_end_char_chars(&raw, '/');
            Some(string_of(t.as_slice()))
        } else {
            None
        };
        let owner = h.owner.clone();
        let repo = h.repo.clone();
        self.do_load_repo(kind, owner, repo, inst);
    }

    fn accept_suggestion(&mut self, i: usize)
        requires
            old(self).wf(),
            i < old(self).autocomplete_suggestions@.len(),
        ensures
            accept_rel(*old(self), i as int, *final(self)),
            final(self).wf(),
    {
        let s = self.autocomplete_suggestions[i].clone();
        let n = byte_len_of(s.as_str());
        self.input = s;
        self.input_cursor = n;
        self.autocomplete_suggestions.clear();
        self.autocomplete_idx = None;
    }

    fn accept_current(&mut self)
        requires
            old(self).wf(),
        ensures
            accept_current_rel(*old(self), *final(self)),
            final(self).wf(),
    {
        let i = match self.autocomplete_idx {
            Some(i) => i,
            None => 0,
        };
        if i < self.autocomplete_suggestions.len() {
            self.accept_suggestion(i);
        }
    }

    fn type_char(&mut self, c: char)
        requires
            old(self).wf(),
            is_boundary(old(self).input@, old(self).input_cursor as int),
        ensures
            insert_rel(*old(self), c, *final(self)),
            final(self).wf(),
    {
        let v = chars_of(self.input.as_str());
        // the input's byte length bounds every offset into it
        let _input_len = byte_len_of(self.input.as_str());
        let k = match boundary_at(&v, self.input_cursor) {
            Some(k) => k,
            None => {
                return;
            },
        };
        proof {
            lemma_boundary_index(self.input@, self.input_cursor as int, k as int);
        }
        let t = insert_char(&self.input, k, c);
        let n = byte_len_of(t.as_str());
        proof {
            lemma_inserted_prefix(self.input@, k as int, c);
        }
        let w = char_width_exec(c);
        self.input = t;
        self.input_cursor = self.input_cursor + w;
        self.error = None;
        self.update_autocomplete();
    }

    fn backspace(&mut self)
        requires
            old(self).wf(),
        ensures
            backspace_rel(*old(self), *final(self)),
            final(self).wf(),
    {
        if self.input_cursor > 0 {
            let v = chars_of(self.input.as_str());
            // the input's byte length bounds every offset into it
            let _input_len = byte_len_of(self.input.as_str());
            let k = last_before_exec(&v, self.input_cursor);
            let head = copy_range(&v, 0, k);
            proof {
                assert(head@ =~= v@.take(k as int));
            }
            let nc = utf8_len_exec(&head);
            proof {
                lemma_removed_prefix(self.input@, k as int);
            }
            let t = remove_char(&self.input, k);
            self.input = t;
            self.input_cursor = nc;
        }
        self.update_autocomplete();
    }

    fn home_char(&mut self, c: char) -> (quit: bool)
        requires
            old(self).wf(),
            home_key_ok(*old(self), crate::app::KeyCode::Char(c)),
        ensures
            home_char_rel(*old(self), c, *final(self), quit),
            final(self).wf(),
    {
        if self.input.as_str().is_empty() {
            if c == 'q' || c == 'Q' {
                return true;
            }
            if c == 'C' {
                self.screen = Screen::Config;
                return false;
            }
            if c == 'T' {
                self.next_theme();
                return false;
            }
            if '1' <= c && c <= '6' {
                let idx = (c as u32 - '1' as u32) as usize;
                if idx < self.history.len() {
                    self.open_entry(idx);
                    return false;
                }
            }
        }
        self.type_char(c);
        false
    }

    fn home_up(&mut self)
        requires
            old(self).wf(),
        ensures
            home_up_rel(*old(self), *final(self)),
            final(self).wf(),
    {
        let n = self.autocomplete_suggestions.len();
        if n > 0 {
            let i = match self.autocomplete_idx {
                Some(i) => if i == 0 {
                    n - 1
                } else {
                    i - 1
                },
                None => n - 1,
            };
            self.autocomplete_idx = Some(i);
        } else if self.history.len() > 0 {
            let h = &self.history[0];
            let mut v = chars_of(h.owner.as_str());
            push_str(&mut v, "/");
            push_str(&mut v, h.repo.as_str());
            let s = string_of(v.as_slice());
            proof {
                assert(s@ =~= short_name(self.history@[0]));
            }
            let len = byte_len_of(s.as_str());
            self.input = s;
            self.input_cursor = len;
            self.update_autocomplete();
        }
    }

    fn home_down(&mut self)
        requires
            old(self).wf(),
        ensures
            home_down_rel(*old(self), *final(self)),
            final(self).wf(),
    {
        let n = self.autocomplete_suggestions.len();
        if n > 0 {
            let i = match self.autocomplete_idx {
                Some(i) => (i + 1) % n,
                None => 0,
            };
            self.autocomplete_idx = Some(i);
        }
    }

    fn home_enter(&mut self)
        requires
            old(self).wf(),
        ensures
            home_enter_rel(*old(self), *final(self)),
            final(self).wf(),
    {
        if let Some(i) = self.autocomplete_idx {
            if i < self.autocomplete_suggestions.len() {
                self.accept_suggestion(i);
                return;
            }
        }
        let s = string_of(trim_chars(&chars_of(self.input.as_str())).as_slice());
        let gitea: Option<&str> = match &self.config.auth.gitea_url {
            Some(g) => Some(g.as_str()),
            None => None,
        };
        match parse_url(s.as_str(), gitea) {
            Some((kind, owner, repo, inst)) => {
                self.do_load_repo(kind, owner, repo, inst);
            },
            None => {
                if !s.as_str().is_empty() {
                    let msg = "invalid URL — try github.com/owner/repo";
                    proof {
                        reveal_strlit("invalid URL — try github.com/owner/repo");
                    }
                    self.error = Some(string_of(chars_of(msg).as_slice()));
                }
            },
        }
    }

    fn home_esc(&mut self) -> (quit: bool)
        requires
            old(self).wf(),
        ensures
            home_esc_rel(*old(self), *final(self), quit),
            final(self).wf(),
    {
        if self.autocomplete_suggestions.len() > 0 {
            self.autocomplete_suggestions.clear();
            self.autocomplete_idx = None;
            false
        } else if !self.input.as_str().is_empty() {
            self.input = String::new();
            self.input_cursor = 0;
            self.autocomplete_suggestions.clear();
            self.autocomplete_idx = None;
            false
        } else {
            true
        }
    }

    fn home_right(&mut self)
        requires
            old(self).wf(),
        ensures
            home_right_rel(*old(self), *final(self)),
            final(self).wf(),
    {
        let len = byte_len_of(self.input.as_str());
        if self.input_cursor == len && self.autocomplete_suggestions.len() > 0 {
            self.accept_current();
        } else if self.input_cursor < len {
            self.input_cursor = self.input_cursor + 1;
        }
    }

    /// Keys on the home screen.
    pub(crate) fn key_home(&mut self, code: crate::app::KeyCode) -> (quit: bool)
        requires
            old(self).wf(),
            home_key_ok(*old(self), code),
        ensures
            key_home_rel(*old(self), code, *final(self), quit),
            final(self).wf(),
    {
        match code {
            crate::app::KeyCode::Char(c) => self.home_char(c),
            crate::app::KeyCode::Tab => {
                self.accept_current();
                false
            },
            crate::app::KeyCode::Backspace => {
                self.backspace();
                false
            },
            crate::app::KeyCode::Left => {
                if self.input_cursor > 0 {
                    self.input_cursor = self.input_cursor - 1;
                }
                false
            },
            crate::app::KeyCode::Right => {
                self.home_right();
                false
            },
            crate::app::KeyCode::Home => {
                self.input_cursor = 0;
                false
            },
            crate::app::KeyCode::End => {
                self.input_cursor = byte_len_of(self.input.as_str());
                false
            },
            crate::app::KeyCode::Up => {
                self.home_up();
                false
            },
            crate::app::KeyCode::Down => {
                self.home_down();
                false
            },
            crate::app::KeyCode::Enter => {
                self.home_enter();
                false
            },
            crate::app::KeyCode::Esc => self.home_esc(),
            crate::app::KeyCode::F(n) => {
                if n == 5 {
                    self.screen = Screen::Config;
                }
                false
            },
            _ => false,
        }
    }
}

} // verus!
