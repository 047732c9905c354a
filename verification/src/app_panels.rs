//! Keys on the download plan, the downloads panel, the branch picker, the configuration
//! screen, control chords, and the dispatch of a key to the screen that has it.
use vstd::prelude::*;
use crate::app::{App, DlEntry, Effect, KeyCode, Screen, Status};
use crate::app_actions::{client_effect, execute_plan_rel, open_plan_rel, nav_page_rel, next_theme_rel};
use crate::app_browse::{key_browser_rel, load_contents_at};
use crate::app_keys::{key_home_rel, home_key_ok};
use crate::config::{AuthConfig, Config, CoreConfig};
use crate::providers::{ProviderKind, clone_opt_string};
use crate::text::{chars_of, string_of};

verus! {

// ─── Download plan ────────────────────────────────────────────────────────────

pub open spec fn key_plan_rel(a: App, code: KeyCode, b: App) -> bool {
    match code {
        KeyCode::Enter => execute_plan_rel(a, b),
        KeyCode::Esc => b == (App { screen: Screen::Browser, ..a }),
        KeyCode::Char(c) => if c == 'y' || c == 'Y' {
            execute_plan_rel(a, b)
        } else if c == 'r' || c == 'R' {
            open_plan_rel(App { dl_recursive: !a.dl_recursive, ..a }, b)
        } else if c == 's' || c == 'S' {
            b == (App { dl_preserve_structure: !a.dl_preserve_structure, ..a })
        } else if c == 'k' || c == 'K' {
            b == (App { dl_skip_existing: !a.dl_skip_existing, ..a })
        } else if c == 'q' || c == 'n' {
            b == (App { screen: Screen::Browser, ..a })
        } else {
            b == a
        },
        _ => b == a,
    }
}

// ─── Downloads panel ──────────────────────────────────────────────────────────

/// Downloads still under way.
pub open spec fn pending(ds: Seq<DlEntry>) -> Seq<DlEntry> {
    ds.filter(|d: DlEntry| !d.done && d.error is None)
}

pub open spec fn key_downloads_rel(a: App, code: KeyCode, b: App) -> bool {
    match code {
        KeyCode::Esc => b == (App { screen: Screen::Browser, ..a }),
        KeyCode::Char(c) => if c == 'q' || c == 'O' || c == 'o' {
            b == (App { screen: Screen::Browser, ..a })
        } else if c == 'c' {
            &&& b == (App { downloads: b.downloads, ..a })
            &&& b.downloads@ == pending(a.downloads@)
        } else {
            b == a
        },
        _ => b == a,
    }
}

// ─── Branch picker ────────────────────────────────────────────────────────────

pub open spec fn branch_row(a: App) -> int {
    match a.branch_sel {
        Some(i) => i as int,
        None => 0,
    }
}

pub open spec fn branch_up_rel(a: App, b: App) -> bool {
    b == (App {
        branch_sel: Some(
            (if branch_row(a) > 0 {
                branch_row(a) - 1
            } else {
                0
            }) as usize,
        ),
        ..a
    })
}

pub open spec fn branch_down_rel(a: App, b: App) -> bool {
    if branch_row(a) + 1 < a.branches@.len() {
        b == (App { branch_sel: Some((branch_row(a) + 1) as usize), ..a })
    } else {
        b == a
    }
}

/// `b` is `a` after switching to the highlighted branch and listing its root.
pub open spec fn branch_pick_rel(a: App, b: App) -> bool {
    if a.branch_sel matches Some(i) && i < a.branches@.len() {
        &&& b.path_stack@.len() == 0
        &&& load_contents_at(
            App {
                branch: a.branches@[a.branch_sel->0 as int],
                path_stack: b.path_stack,
                screen: Screen::Browser,
                ..a
            },
            Seq::empty(),
            b,
        )
    } else {
        b == a
    }
}

pub open spec fn key_branch_rel(a: App, code: KeyCode, b: App) -> bool {
    match code {
        KeyCode::Up => branch_up_rel(a, b),
        KeyCode::Down => branch_down_rel(a, b),
        KeyCode::Enter => branch_pick_rel(a, b),
        KeyCode::Esc => b == (App { screen: Screen::Browser, ..a }),
        KeyCode::Char(c) => if c == 'k' {
            branch_up_rel(a, b)
        } else if c == 'j' {
            branch_down_rel(a, b)
        } else if c == 'q' || c == 'b' {
            b == (App { screen: Screen::Browser, ..a })
        } else {
            b == a
        },
        _ => b == a,
    }
}

// ─── Configuration screen ─────────────────────────────────────────────────────

pub open spec fn opt_text(o: Option<String>) -> Seq<char> {
    match o {
        Some(s) => s@,
        None => Seq::empty(),
    }
}

/// Text of configuration field `field` as the editor starts with it.
pub open spec fn cfg_value(a: App, field: usize) -> Seq<char> {
    if field == 0 {
        opt_text(a.config.auth.github_token)
    } else if field == 1 {
        opt_text(a.config.auth.gitlab_token)
    } else if field == 2 {
        opt_text(a.config.auth.codeberg_token)
    } else if field == 3 {
        opt_text(a.config.auth.gitea_token)
    } else if field == 4 {
        opt_text(a.config.auth.gitea_url)
    } else if field == 5 {
        opt_text(a.config.core.download_path)
    } else {
        Seq::empty()
    }
}

pub open spec fn with_auth(a: App, auth: AuthConfig) -> App {
    App { config: Config { auth, ..a.config }, ..a }
}

/// `b` is `m` with the API client rebuilt when `m` uses provider `kind`.
pub open spec fn rebuilt_if(m: App, kind: ProviderKind, b: App) -> bool {
    if m.provider == kind {
        &&& b == (App { effects: b.effects, ..m })
        &&& b.effects@ == m.effects@.push(client_effect(m))
    } else {
        b == m
    }
}

/// `b` is `a` with the edited text stored in the selected field (empty text clears it; a
/// cleared download directory falls back to the default one).
pub open spec fn apply_cfg_rel(a: App, b: App) -> bool {
    let val = if a.cfg_buf@.len() == 0 {
        None
    } else {
        Some(a.cfg_buf)
    };
    let auth = a.config.auth;
    if a.cfg_field == 0 {
        rebuilt_if(with_auth(a, AuthConfig { github_token: val, ..auth }), ProviderKind::GitHub, b)
    } else if a.cfg_field == 1 {
        rebuilt_if(with_auth(a, AuthConfig { gitlab_token: val, ..auth }), ProviderKind::GitLab, b)
    } else if a.cfg_field == 2 {
        rebuilt_if(with_auth(a, AuthConfig { codeberg_token: val, ..auth }), ProviderKind::Codeberg, b)
    } else if a.cfg_field == 3 {
        rebuilt_if(with_auth(a, AuthConfig { gitea_token: val, ..auth }), ProviderKind::Gitea, b)
    } else if a.cfg_field == 4 {
        b == with_auth(a, AuthConfig { gitea_url: val, ..auth })
    } else if a.cfg_field == 5 {
        b == (App {
            config: Config {
                core: CoreConfig {
                    download_path: if val is Some {
                        val
                    } else {
                        a.default_download_dir
                    },
                    ..a.config.core
                },
                ..a.config
            },
            ..a
        })
    } else {
        b == a
    }
}

/// `b` is `a` after storing the edited field, queueing the configuration for saving and
/// leaving the editor.
pub open spec fn cfg_commit_rel(a: App, b: App) -> bool {
    exists|m: App|
        {
            &&& #[trigger] apply_cfg_rel(a, m)
            &&& b == (App { cfg_editing: false, status: Status::ConfigSaved, effects: b.effects, ..m })
            &&& b.effects@ == m.effects@.push(Effect::SaveConfig)
        }
}

pub open spec fn key_config_rel(a: App, code: KeyCode, b: App) -> bool {
    if a.cfg_editing {
        match code {
            KeyCode::Char(c) => b == (App { cfg_buf: b.cfg_buf, ..a }) && b.cfg_buf@ == a.cfg_buf@.push(c),
            KeyCode::Backspace => b == (App { cfg_buf: b.cfg_buf, ..a }) && b.cfg_buf@ == if a.cfg_buf@.len() > 0 {
                a.cfg_buf@.drop_last()
            } else {
                a.cfg_buf@
            },
            KeyCode::Enter => cfg_commit_rel(a, b),
            KeyCode::Esc => b == (App { cfg_editing: false, ..a }),
            _ => b == a,
        }
    } else {
        let up = code == KeyCode::Up || code == KeyCode::Char('k');
        let down = code == KeyCode::Down || code == KeyCode::Char('j');
        if up {
            b == (App {
                cfg_field: if a.cfg_field > 0 {
                    (a.cfg_field - 1) as usize
                } else {
                    a.cfg_field
                },
                ..a
            })
        } else if down {
            b == (App {
                cfg_field: if a.cfg_field + 1 < 5 {
                    (a.cfg_field + 1) as usize
                } else {
                    5
                },
                ..a
            })
        } else if code == KeyCode::Enter {
            &&& b == (App { cfg_buf: b.cfg_buf, cfg_editing: true, ..a })
            &&& b.cfg_buf@ == cfg_value(a, a.cfg_field)
        } else if code == KeyCode::Esc || code == KeyCode::Char('q') {
            b == (App {
                screen: if a.repo_meta is Some {
                    Screen::Browser
                } else {
                    Screen::Home
                },
                ..a
            })
        } else {
            b == a
        }
    }
}

// ─── Control chords ───────────────────────────────────────────────────────────

pub open spec fn ctrl_key_rel(a: App, code: KeyCode, b: App, quit: bool) -> bool {
    if code == KeyCode::Char('c') || code == KeyCode::Char('q') {
        quit && b == a
    } else if code == KeyCode::Char('j') || code == KeyCode::Down {
        !quit && b == (App {
            preview_scroll: if a.preview_scroll + 5 > u16::MAX {
                u16::MAX
            } else {
                (a.preview_scroll + 5) as u16
            },
            ..a
        })
    } else if code == KeyCode::Char('k') || code == KeyCode::Up {
        !quit && b == (App {
            preview_scroll: if a.preview_scroll < 5 {
                0
            } else {
                (a.preview_scroll - 5) as u16
            },
            ..a
        })
    } else if code == KeyCode::Char('d') {
        !quit && nav_page_rel(a, 10, b)
    } else if code == KeyCode::Char('u') {
        !quit && nav_page_rel(a, -10, b)
    } else if code == KeyCode::Char('t') {
        !quit && next_theme_rel(a, b)
    } else {
        !quit && b == a
    }
}

// ─── Dispatch ─────────────────────────────────────────────────────────────────

/// `b` is `a` after key `code` (with Control held when `ctrl`); `quit` when the key ends
/// the program.
pub open spec fn key_rel(a: App, code: KeyCode, ctrl: bool, b: App, quit: bool) -> bool {
    if ctrl {
        ctrl_key_rel(a, code, b, quit)
    } else {
        match a.screen {
            Screen::Home => key_home_rel(a, code, b, quit),
            Screen::Browser => key_browser_rel(a, code, b, quit),
            Screen::BranchPopup => !quit && key_branch_rel(a, code, b),
            Screen::DownloadPlan => !quit && key_plan_rel(a, code, b),
            Screen::Help => !quit && b == (App { screen: Screen::Browser, ..a }),
            Screen::Config => !quit && key_config_rel(a, code, b),
            Screen::Downloads => !quit && key_downloads_rel(a, code, b),
        }
    }
}

/// Keys that the state accepts: text typed on the home screen goes in at a character
/// boundary.
pub open spec fn key_ok(a: App, code: KeyCode, ctrl: bool) -> bool {
    !ctrl && a.screen == Screen::Home ==> home_key_ok(a, code)
}

fn keep_pending(ds: &mut Vec<DlEntry>)
    ensures
        final(ds)@ == pending(old(ds)@),
{
    let mut rest: Vec<DlEntry> = Vec::new();
    std::mem::swap(&mut rest, ds);
    let ghost orig = rest@;
    let mut i: usize = 0;
    // a vector's length fits in usize, and so does every index counted up to it
    let _count = rest.len();
    proof {
        assert(orig.subrange(0, 0).filter(|d: DlEntry| !d.done && d.error is None) =~= Seq::<DlEntry>::empty());
        assert(rest@.subrange(0, rest@.len() as int) =~= rest@);
    }
    while rest.len() > 0
        invariant
            i + rest@.len() == orig.len(),
            orig.len() <= usize::MAX,
            rest@ == orig.subrange(i as int, orig.len() as int),
            ds@ == orig.subrange(0, i as int).filter(|d: DlEntry| !d.done && d.error is None),
        decreases rest.len(),
    {
        let d = rest.remove(0);
        proof {
            assert(orig.subrange(0, i + 1).drop_last() =~= orig.subrange(0, i as int));
            assert(orig.subrange(0, i + 1).last() == d);
            reveal(Seq::filter);
        }
        if !d.done && d.error.is_none() {
            ds.push(d);
        }
        i += 1;
        proof {
            assert(rest@ =~= orig.subrange(i as int, orig.len() as int));
        }
    }
    proof {
        assert(orig.subrange(0, i as int) =~= orig);
    }
}

impl App {
    fn key_plan(&mut self, code: KeyCode)
        requires
            old(self).wf(),
        ensures
            key_plan_rel(*old(self), code, *final(self)),
            final(self).wf(),
    {
        match code {
            KeyCode::Enter => self.execute_plan(),
            KeyCode::Esc => {
                self.screen = Screen::Browser;
            },
            KeyCode::Char(c) => {
                if c == 'y' || c == 'Y' {
                    self.execute_plan();
                } else if c == 'r' || c == 'R' {
                    self.dl_recursive = !self.dl_recursive;
                    self.open_download_plan();
                } else if c == 's' || c == 'S' {
                    self.dl_preserve_structure = !self.dl_preserve_structure;
                } else if c == 'k' || c == 'K' {
                    self.dl_skip_existing = !self.dl_skip_existing;
                } else if c == 'q' || c == 'n' {
                    self.screen = Screen::Browser;
                }
            },
            _ => {},
        }
    }

    fn key_downloads(&mut self, code: KeyCode)
        requires
            old(self).wf(),
        ensures
            key_downloads_rel(*old(self), code, *final(self)),
            final(self).wf(),
    {
        match code {
            KeyCode::Esc => {
                self.screen = Screen::Browser;
            },
            KeyCode::Char(c) => {
                if c == 'q' || c == 'O' || c == 'o' {
                    self.screen = Screen::Browser;
                } else if c == 'c' {
                    keep_pending(&mut self.downloads);
                }
            },
            _ => {},
        }
    }

    fn branch_up(&mut self)
        ensures
            branch_up_rel(*old(self), *final(self)),
    {
        let i = match self.branch_sel {
            Some(i) => i,
            None => 0,
        };
        self.branch_sel = Some(if i > 0 {
            i - 1
        } else {
            0
        });
    }

    #[verifier::rlimit(50)]
    fn branch_down(&mut self)
        ensures
            branch_down_rel(*old(self), *final(self)),
    {
        let i = match self.branch_sel {
            Some(i) => i,
            None => 0,
        };
        let n = self.branches.len();
        if n > 0 && i < n - 1 {
            let j = i + 1;
            self.branch_sel = Some(j);
        }
    }

    fn key_branch(&mut self, code: KeyCode)
        requires
            old(self).wf(),
        ensures
            key_branch_rel(*old(self), code, *final(self)),
            final(self).wf(),
    {
        match code {
            KeyCode::Up => self.branch_up(),
            KeyCode::Down => self.branch_down(),
            KeyCode::Enter => {
                if let Some(i) = self.branch_sel {
                    if i < self.branches.len() {
                        self.branch = self.branches[i].clone();
                        self.path_stack.clear();
                        self.screen = Screen::Browser;
                        self.do_load_contents(String::new());
                    }
                }
            },
            KeyCode::Esc => {
                self.screen = Screen::Browser;
            },
            KeyCode::Char(c) => {
                if c == 'k' {
                    self.branch_up();
                } else if c == 'j' {
                    self.branch_down();
                } else if c == 'q' || c == 'b' {
                    self.screen = Screen::Browser;
                }
            },
            _ => {},
        }
    }

    /// Text of configuration field `field` as the editor starts with it.
    pub fn cfg_field_value_pub(&self, field: usize) -> (r: String)
        ensures
            r@ == cfg_value(*self, field),
    {
        self.cfg_field_value(field)
    }

    fn cfg_field_value(&self, field: usize) -> (r: String)
        ensures
            r@ == cfg_value(*self, field),
    {
        let o: &Option<String> = if field == 0 {
            &self.config.auth.github_token
        } else if field == 1 {
            &self.config.auth.gitlab_token
        } else if field == 2 {
            &self.config.auth.codeberg_token
        } else if field == 3 {
            &self.config.auth.gitea_token
        } else if field == 4 {
            &self.config.auth.gitea_url
        } else if field == 5 {
            &self.config.core.download_path
        } else {
            return String::new();
        };
        match o {
            Some(s) => s.clone(),
            None => String::new(),
        }
    }

    #[verifier::rlimit(50)]
    fn apply_token(&mut self, val: Option<String>)
        requires
            old(self).wf(),
            old(self).cfg_field < 4,
            val == (if old(self).cfg_buf@.len() == 0 {
                None
            } else {
                Some(old(self).cfg_buf)
            }),
        ensures
            apply_cfg_rel(*old(self), *final(self)),
            final(self).wf(),
    {
        if self.cfg_field == 0 {
            self.config.auth.github_token = val;
            if self.provider == ProviderKind::GitHub {
                self.rebuild_client();
            }
        } else if self.cfg_field == 1 {
            self.config.auth.gitlab_token = val;
            if self.provider == ProviderKind::GitLab {
                self.rebuild_client();
            }
        } else if self.cfg_field == 2 {
            self.config.auth.codeberg_token = val;
            if self.provider == ProviderKind::Codeberg {
                self.rebuild_client();
            }
        } else {
            self.config.auth.gitea_token = val;
            if self.provider == ProviderKind::Gitea {
                self.rebuild_client();
            }
        }
    }

    fn apply_cfg_field(&mut self)
        requires
            old(self).wf(),
        ensures
            apply_cfg_rel(*old(self), *final(self)),
            final(self).wf(),
    {
        let val: Option<String> = if self.cfg_buf.as_str().is_empty() {
            None
        } else {
            Some(self.cfg_buf.clone())
        };
        if self.cfg_field < 4 {
            self.apply_token(val);
        } else if self.cfg_field == 4 {
            self.config.auth.gitea_url = val;
        } else if self.cfg_field == 5 {
            self.config.core.download_path = match val {
                Some(v) => Some(v),
                None => clone_opt_string(&self.default_download_dir),
            };
        }
    }

    fn key_config(&mut self, code: KeyCode)
        requires
            old(self).wf(),
        ensures
            key_config_rel(*old(self), code, *final(self)),
            final(self).wf(),
    {
        if self.cfg_editing {
            match code {
                KeyCode::Char(c) => {
                    let mut v = chars_of(self.cfg_buf.as_str());
                    v.push(c);
                    self.cfg_buf = string_of(v.as_slice());
                },
                KeyCode::Backspace => {
                    let mut v = chars_of(self.cfg_buf.as_str());
                    if v.len() > 0 {
                        v.pop();
                    }
                    self.cfg_buf = string_of(v.as_slice());
                },
                KeyCode::Enter => {
                    self.apply_cfg_field();
                    let ghost m = *self;
                    self.effects.push(Effect::SaveConfig);
                    self.cfg_editing = false;
                    self.status = Status::ConfigSaved;
                    proof {
                        assert(apply_cfg_rel(*old(self), m));
                    }
                },
                KeyCode::Esc => {
                    self.cfg_editing = false;
                },
                _ => {},
            }
        } else {
            let up = code == KeyCode::Up || code == KeyCode::Char('k');
            let down = code == KeyCode::Down || code == KeyCode::Char('j');
            if up {
                if self.cfg_field > 0 {
                    self.cfg_field = self.cfg_field - 1;
                }
            } else if down {
                self.cfg_field = if self.cfg_field + 1 < 5 {
                    self.cfg_field + 1
                } else {
                    5
                };
            } else if code == KeyCode::Enter {
                self.cfg_buf = self.cfg_field_value(self.cfg_field);
                self.cfg_editing = true;
            } else if code == KeyCode::Esc || code == KeyCode::Char('q') {
                self.screen = if self.repo_meta.is_some() {
                    Screen::Browser
                } else {
                    Screen::Home
                };
            }
        }
    }

    fn ctrl_key(&mut self, code: KeyCode) -> (quit: bool)
        requires
            old(self).wf(),
        ensures
            ctrl_key_rel(*old(self), code, *final(self), quit),
            final(self).wf(),
    {
        if code == KeyCode::Char('c') || code == KeyCode::Char('q') {
            true
        } else if code == KeyCode::Char('j') || code == KeyCode::Down {
            self.preview_scroll = self.preview_scroll.saturating_add(5);
            false
        } else if code == KeyCode::Char('k') || code == KeyCode::Up {
            self.preview_scroll = self.preview_scroll.saturating_sub(5);
            false
        } else if code == KeyCode::Char('d') {
            self.nav_page(10);
            false
        } else if code == KeyCode::Char('u') {
            self.nav_page(-10);
            false
        } else if code == KeyCode::Char('t') {
            self.next_theme();
            false
        } else {
            false
        }
    }

    /// Handle one key press (`ctrl` when Control is held); returns whether the program
    /// should quit.
    pub fn handle_key(&mut self, code: KeyCode, ctrl: bool) -> (quit: bool)
        requires
            old(self).wf(),
            key_ok(*old(self), code, ctrl),
        ensures
            key_rel(*old(self), code, ctrl, *final(self), quit),
            final(self).wf(),
    {
        if ctrl {
            return self.ctrl_key(code);
        }
        match self.screen {
            Screen::Home => self.key_home(code),
            Screen::Browser => self.key_browser(code),
            Screen::BranchPopup => {
                self.key_branch(code);
                false
            },
            Screen::DownloadPlan => {
                self.key_plan(code);
                false
            },
            Screen::Help => {
                self.screen = Screen::Browser;
                false
            },
            Screen::Config => {
                self.key_config(code);
                false
            },
            Screen::Downloads => {
                self.key_downloads(code);
                false
            },
        }
    }
}

} // verus!
