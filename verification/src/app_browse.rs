//! Keys on the file browser.
use vstd::prelude::*;
use crate::app::{App, KeyCode, Screen, SearchMode, Status, sort_next_spec};
use crate::app_actions::{
    current_spec, load_contents_rel, go_back_rel, download_rel, preview_rel, open_plan_rel, next_min_size,
    next_theme_rel, nav_up_rel, nav_down_rel, nav_top_rel, nav_bottom_rel, nav_page_rel, toggle_select_rel,
    select_all_rel, unselect_all_rel, invert_rel, copy_url_rel, wget_rel, toggle_bookmark_rel,
};
use crate::app_filter::rebuilt;
use crate::providers::NodeKind;
use crate::text::{chars_of, string_of};

verus! {

/// `a` without the preview pane.
pub open spec fn clear_preview(a: App) -> App {
    App { preview: None, preview_path: None, ..a }
}

/// `b` is `a` after starting to list the directory `p`.
pub open spec fn load_contents_at(a: App, p: Seq<char>, b: App) -> bool {
    b.status matches Status::LoadingPath(s) && s@ == p && load_contents_rel(a, s, b)
}

/// Keys that go to the search query while a search is being typed.
pub open spec fn search_consumes(a: App, code: KeyCode) -> bool {
    &&& a.search_mode != SearchMode::Off
    &&& (code is Char || code is Backspace || code is Esc || code is Enter)
}

/// `b` is `a` after a key typed into the search query.
pub open spec fn search_key_rel(a: App, code: KeyCode, b: App) -> bool {
    match code {
        KeyCode::Char(c) => {
            &&& b.search_query@ == a.search_query@.push(c)
            &&& rebuilt(App { search_query: b.search_query, ..a }, b)
        },
        KeyCode::Backspace => {
            &&& b.search_query@ == if a.search_query@.len() > 0 {
                a.search_query@.drop_last()
            } else {
                a.search_query@
            }
            &&& rebuilt(App { search_query: b.search_query, ..a }, b)
        },
        KeyCode::Esc => {
            &&& b.search_mode == SearchMode::Off
            &&& b.search_query@.len() == 0
            &&& rebuilt(App { search_query: b.search_query, ..a }, App { search_mode: a.search_mode, ..b })
        },
        _ => b == (App { search_mode: SearchMode::Off, ..a }),
    }
}

/// `b` is `a` after starting a search of kind `mode` with an empty query.
pub open spec fn start_search_rel(a: App, mode: SearchMode, b: App) -> bool {
    &&& b.search_query@.len() == 0
    &&& rebuilt(App { search_mode: mode, search_query: b.search_query, ..a }, b)
}

/// `b` is `a` after opening the highlighted entry: a directory is listed (the current one
/// is remembered for going back), a file is previewed.
pub open spec fn open_current_rel(a: App, b: App) -> bool {
    match current_spec(a) {
        Some(n) => if n.kind == NodeKind::Dir {
            &&& b.path_stack@ == a.path_stack@.push(a.current_path)
            &&& load_contents_at(App { path_stack: b.path_stack, ..a }, n.path@, b)
        } else {
            preview_rel(a, n, b)
        },
        None => b == a,
    }
}

/// `b` is `a` after closing the preview, or else going back a directory.
pub open spec fn back_rel(a: App, b: App) -> bool {
    if a.preview is Some {
        b == clear_preview(a)
    } else {
        go_back_rel(a, b)
    }
}

pub open spec fn browse_esc_rel(a: App, b: App) -> bool {
    if a.preview is Some {
        b == clear_preview(a)
    } else if a.ext_filter is Some {
        rebuilt(App { ext_filter: None, ..a }, b)
    } else if a.path_stack@.len() > 0 {
        go_back_rel(a, b)
    } else {
        b == (App { screen: Screen::Home, ..a })
    }
}

/// `b` is `a` after downloading the highlighted entry, when it is a file.
pub open spec fn download_current_rel(a: App, b: App) -> bool {
    match current_spec(a) {
        Some(n) => if n.kind == NodeKind::File {
            download_rel(a, n, b)
        } else {
            b == a
        },
        None => b == a,
    }
}

/// `b` is `a` after the preview key: an open preview closes, else a highlighted file is previewed.
pub open spec fn toggle_preview_rel(a: App, b: App) -> bool {
    if a.preview is Some {
        b == clear_preview(a)
    } else {
        match current_spec(a) {
            Some(n) => if n.kind == NodeKind::File {
                preview_rel(a, n, b)
            } else {
                b == a
            },
            None => b == a,
        }
    }
}

/// Character keys that move, open, select or download.
pub open spec fn move_char(c: char) -> bool {
    c == 'k' || c == 'j' || c == 'g' || c == 'G' || c == 'l' || c == 'h' || c == ' ' || c == 'a' || c == 'u'
        || c == 'i' || c == 'I' || c == 'd' || c == 'D' || c == 'O' || c == 'o'
}

/// Character keys of the browser other than quitting.
pub open spec fn browse_char_rel(a: App, c: char, b: App) -> bool {
    if move_char(c) {
        move_char_rel(a, c, b)
    } else {
        view_char_rel(a, c, b)
    }
}

pub open spec fn move_char_rel(a: App, c: char, b: App) -> bool {
    if c == 'k' {
        nav_up_rel(a, b)
    } else if c == 'j' {
        nav_down_rel(a, b)
    } else if c == 'g' {
        nav_top_rel(a, b)
    } else if c == 'G' {
        nav_bottom_rel(a, b)
    } else if c == 'l' {
        open_current_rel(a, b)
    } else if c == 'h' {
        back_rel(a, b)
    } else if c == ' ' {
        toggle_select_rel(a, b)
    } else if c == 'a' {
        select_all_rel(a, b)
    } else if c == 'u' {
        unselect_all_rel(a, b)
    } else if c == 'i' || c == 'I' {
        invert_rel(a, b)
    } else if c == 'd' {
        open_plan_rel(a, b)
    } else if c == 'D' {
        download_current_rel(a, b)
    } else if c == 'O' || c == 'o' {
        if a.downloads@.len() > 0 {
            b == (App { screen: Screen::Downloads, ..a })
        } else {
            b == (App { status: Status::NoDownloads, ..a })
        }
    } else {
        b == a
    }
}

/// Character keys that search, filter, reload or copy.
pub open spec fn filter_char(c: char) -> bool {
    c == '/' || c == '%' || c == '\\' || c == 'x' || c == 'X' || c == 'b' || c == 'B' || c == 'r' || c == 'R'
        || c == 'c' || c == 'w' || c == 'p'
}

pub open spec fn view_char_rel(a: App, c: char, b: App) -> bool {
    if filter_char(c) {
        filter_char_rel(a, c, b)
    } else {
        misc_char_rel(a, c, b)
    }
}

pub open spec fn filter_char_rel(a: App, c: char, b: App) -> bool {
    if c == '/' {
        start_search_rel(a, SearchMode::Name, b)
    } else if c == '%' {
        start_search_rel(a, SearchMode::Ext, b)
    } else if c == '\\' {
        start_search_rel(a, SearchMode::Path, b)
    } else if c == 'x' || c == 'X' {
        &&& b.search_query@.len() == 0
        &&& rebuilt(
            App {
                ext_filter: None,
                search_query: b.search_query,
                search_mode: SearchMode::Off,
                min_size: None,
                ..a
            },
            b,
        )
    } else if c == 'b' || c == 'B' {
        b == (App { screen: Screen::BranchPopup, ..a })
    } else if c == 'r' || c == 'R' {
        load_contents_at(a, a.current_path@, b)
    } else if c == 'c' {
        copy_url_rel(a, b)
    } else if c == 'w' {
        wget_rel(a, b)
    } else if c == 'p' {
        toggle_preview_rel(a, b)
    } else {
        b == a
    }
}

pub open spec fn misc_char_rel(a: App, c: char, b: App) -> bool {
    if c == 'T' {
        next_theme_rel(a, b)
    } else if c == 'S' {
        rebuilt(
            App { sort_mode: sort_next_spec(a.sort_mode), status: Status::SortChanged(sort_next_spec(a.sort_mode)), ..a },
            b,
        )
    } else if c == 'f' || c == 'F' {
        rebuilt(
            App { min_size: next_min_size(a.min_size), status: Status::SizeFilter(next_min_size(a.min_size)), ..a },
            b,
        )
    } else if c == 'm' {
        toggle_bookmark_rel(a, b)
    } else if c == 'n' {
        &&& b == (App { screen: Screen::Home, input: b.input, input_cursor: 0, ..a })
        &&& b.input@.len() == 0
    } else if c == '?' {
        b == (App { screen: Screen::Help, ..a })
    } else if c == 'C' {
        b == (App { screen: Screen::Config, ..a })
    } else if c == 'e' {
        b == (App { error: None, ..a })
    } else {
        b == a
    }
}

/// `b` is `a` after key `code` on the browser outside search typing.
pub open spec fn browse_rel(a: App, code: KeyCode, b: App, quit: bool) -> bool {
    match code {
        KeyCode::Char(c) => if c == 'q' || c == 'Q' {
            if a.path_stack@.len() == 0 && a.current_path@.len() == 0 {
                quit && b == a
            } else {
                &&& !quit
                &&& b.path_stack@.len() == 0
                &&& load_contents_at(App { path_stack: b.path_stack, ..a }, Seq::empty(), b)
            }
        } else {
            !quit && browse_char_rel(a, c, b)
        },
        KeyCode::Esc => !quit && browse_esc_rel(a, b),
        KeyCode::Up => !quit && nav_up_rel(a, b),
        KeyCode::Down => !quit && nav_down_rel(a, b),
        KeyCode::Home => !quit && nav_top_rel(a, b),
        KeyCode::End => !quit && nav_bottom_rel(a, b),
        KeyCode::PageUp => !quit && nav_page_rel(a, -10, b),
        KeyCode::PageDown => !quit && nav_page_rel(a, 10, b),
        KeyCode::Enter => !quit && open_current_rel(a, b),
        KeyCode::Right => !quit && open_current_rel(a, b),
        KeyCode::Backspace => !quit && back_rel(a, b),
        KeyCode::Left => !quit && back_rel(a, b),
        KeyCode::F(n) => !quit && if n == 1 {
            b == (App { screen: Screen::Help, ..a })
        } else {
            b == a
        },
        _ => !quit && b == a,
    }
}

/// `b` is `a` after key `code` on the browser; `quit` when the key ends the program.
pub open spec fn key_browser_rel(a: App, code: KeyCode, b: App, quit: bool) -> bool {
    if search_consumes(a, code) {
        !quit && search_key_rel(a, code, b)
    } else {
        browse_rel(a, code, b, quit)
    }
}

impl App {
    fn close_preview(&mut self)
        ensures
            *final(self) == clear_preview(*old(self)),
    {
        self.preview = None;
        self.preview_path = None;
    }

    fn search_key(&mut self, code: KeyCode)
        requires
            old(self).wf(),
            search_consumes(*old(self), code),
        ensures
            search_key_rel(*old(self), code, *final(self)),
            final(self).wf(),
    {
        match code {
            KeyCode::Char(c) => {
                let mut v = chars_of(self.search_query.as_str());
                v.push(c);
                self.search_query = string_of(v.as_slice());
                self.rebuild_filter();
            },
            KeyCode::Backspace => {
                let mut v = chars_of(self.search_query.as_str());
                if v.len() > 0 {
                    v.pop();
                }
                self.search_query = string_of(v.as_slice());
                self.rebuild_filter();
            },
            KeyCode::Esc => {
                self.search_query = String::new();
                self.rebuild_filter();
                self.search_mode = SearchMode::Off;
            },
            _ => {
                self.search_mode = SearchMode::Off;
            },
        }
    }

    fn start_search(&mut self, mode: SearchMode)
        requires
            old(self).wf(),
        ensures
            start_search_rel(*old(self), mode, *final(self)),
            final(self).wf(),
    {
        self.search_mode = mode;
        self.search_query = String::new();
        self.rebuild_filter();
    }

    fn open_current(&mut self)
        requires
            old(self).wf(),
        ensures
            open_current_rel(*old(self), *final(self)),
            final(self).wf(),
    {
        if let Some(node) = self.current_node() {
            let node = node.clone();
            if node.kind == NodeKind::Dir {
                let cur = self.current_path.clone();
                self.path_stack.push(cur);
                self.do_load_contents(node.path.clone());
            } else {
                self.do_load_preview(node);
            }
        }
    }

    fn go_back_or_close(&mut self)
        requires
            old(self).wf(),
        ensures
            back_rel(*old(self), *final(self)),
            final(self).wf(),
    {
        if self.preview.is_some() {
            self.close_preview();
        } else {
            self.go_back();
        }
    }

    fn browse_esc(&mut self)
        requires
            old(self).wf(),
        ensures
            browse_esc_rel(*old(self), *final(self)),
            final(self).wf(),
    {
        if self.preview.is_some() {
            self.close_preview();
        } else if self.ext_filter.is_some() {
            self.ext_filter = None;
            self.rebuild_filter();
        } else if self.path_stack.len() > 0 {
            self.go_back();
        } else {
            self.screen = Screen::Home;
        }
    }

    fn download_current(&mut self)
        requires
            old(self).wf(),
        ensures
            download_current_rel(*old(self), *final(self)),
            final(self).wf(),
    {
        if let Some(node) = self.current_node() {
            let node = node.clone();
            if node.kind == NodeKind::File {
                self.do_download_node(node);
            }
        }
    }

    fn toggle_preview(&mut self)
        requires
            old(self).wf(),
        ensures
            toggle_preview_rel(*old(self), *final(self)),
            final(self).wf(),
    {
        if self.preview.is_some() {
            self.close_preview();
        } else if let Some(node) = self.current_node() {
            let node = node.clone();
            if node.kind == NodeKind::File {
                self.do_load_preview(node);
            }
        }
    }

    fn browse_char(&mut self, c: char)
        requires
            old(self).wf(),
        ensures
            browse_char_rel(*old(self), c, *final(self)),
            final(self).wf(),
    {
        if c == 'k' || c == 'j' || c == 'g' || c == 'G' || c == 'l' || c == 'h' || c == ' ' || c == 'a'
            || c == 'u' || c == 'i' || c == 'I' || c == 'd' || c == 'D' || c == 'O' || c == 'o' {
            self.move_char(c);
        } else {
            self.view_char(c);
        }
    }

    fn move_char(&mut self, c: char)
        requires
            old(self).wf(),
        ensures
            move_char_rel(*old(self), c, *final(self)),
            final(self).wf(),
    {
        if c == 'k' {
            self.nav_up();
        } else if c == 'j' {
            self.nav_down();
        } else if c == 'g' {
            self.nav_top();
        } else if c == 'G' {
            self.nav_bottom();
        } else if c == 'l' {
            self.open_current();
        } else if c == 'h' {
            self.go_back_or_close();
        } else if c == ' ' {
            self.toggle_select();
        } else if c == 'a' {
            self.select_all();
        } else if c == 'u' {
            self.unselect_all();
        } else if c == 'i' || c == 'I' {
            self.invert_selection();
        } else if c == 'd' {
            self.open_download_plan();
        } else if c == 'D' {
            self.download_current();
        } else if c == 'O' || c == 'o' {
            if self.downloads.len() > 0 {
                self.screen = Screen::Downloads;
            } else {
                self.status = Status::NoDownloads;
            }
        }
    }

    fn view_char(&mut self, c: char)
        requires
            old(self).wf(),
        ensures
            view_char_rel(*old(self), c, *final(self)),
            final(self).wf(),
    {
        if c == '/' || c == '%' || c == '\\' || c == 'x' || c == 'X' || c == 'b' || c == 'B' || c == 'r'
            || c == 'R' || c == 'c' || c == 'w' || c == 'p' {
            self.filter_char(c);
        } else {
            self.misc_char(c);
        }
    }

    fn filter_char(&mut self, c: char)
        requires
            old(self).wf(),
        ensures
            filter_char_rel(*old(self), c, *final(self)),
            final(self).wf(),
    {
        if c == '/' {
            self.start_search(SearchMode::Name);
        } else if c == '%' {
            self.start_search(SearchMode::Ext);
        } else if c == '\\' {
            self.start_search(SearchMode::Path);
        } else if c == 'x' || c == 'X' {
            self.ext_filter = None;
            self.search_query = String::new();
            self.search_mode = SearchMode::Off;
            self.min_size = None;
            self.rebuild_filter();
        } else if c == 'b' || c == 'B' {
            self.screen = Screen::BranchPopup;
        } else if c == 'r' || c == 'R' {
            let p = self.current_path.clone();
            self.do_load_contents(p);
        } else if c == 'c' {
            self.do_copy_url();
        } else if c == 'w' {
            self.do_wget_cmd();
        } else if c == 'p' {
            self.toggle_preview();
        }
    }

    fn misc_char(&mut self, c: char)
        requires
            old(self).wf(),
        ensures
            misc_char_rel(*old(self), c, *final(self)),
            final(self).wf(),
    {
        if c == 'T' {
            self.next_theme();
        } else if c == 'S' {
            self.cycle_sort();
        } else if c == 'f' || c == 'F' {
            self.cycle_size_filter();
        } else if c == 'm' {
            self.toggle_bookmark();
        } else if c == 'n' {
            self.screen = Screen::Home;
            self.input = String::new();
            self.input_cursor = 0;
        } else if c == '?' {
            self.screen = Screen::Help;
        } else if c == 'C' {
            self.screen = Screen::Config;
        } else if c == 'e' {
            self.error = None;
        }
    }

    fn browse_key(&mut self, code: KeyCode) -> (quit: bool)
        requires
            old(self).wf(),
        ensures
            browse_rel(*old(self), code, *final(self), quit),
            final(self).wf(),
    {
        match code {
            KeyCode::Char(c) => {
                if c == 'q' || c == 'Q' {
                    if self.path_stack.len() == 0 && self.current_path.as_str().is_empty() {
                        return true;
                    }
                    self.path_stack.clear();
                    self.do_load_contents(String::new());
                } else {
                    self.browse_char(c);
                }
            },
            KeyCode::Esc => self.browse_esc(),
            KeyCode::Up => self.nav_up(),
            KeyCode::Down => self.nav_down(),
            KeyCode::Home => self.nav_top(),
            KeyCode::End => self.nav_bottom(),
            KeyCode::PageUp => self.nav_page(-10),
            KeyCode::PageDown => self.nav_page(10),
            KeyCode::Enter => self.open_current(),
            KeyCode::Right => self.open_current(),
            KeyCode::Backspace => self.go_back_or_close(),
            KeyCode::Left => self.go_back_or_close(),
            KeyCode::F(n) => {
                if n == 1 {
                    self.screen = Screen::Help;
                }
            },
            _ => {},
        }
        false
    }

    /// Keys on the file browser.
    pub(crate) fn key_browser(&mut self, code: KeyCode) -> (quit: bool)
        requires
            old(self).wf(),
        ensures
            key_browser_rel(*old(self), code, *final(self), quit),
            final(self).wf(),
    {
        let typing = self.search_mode != SearchMode::Off && match code {
            KeyCode::Char(_) => true,
            KeyCode::Backspace => true,
            KeyCode::Esc => true,
            KeyCode::Enter => true,
            _ => false,
        };
        if typing {
            self.search_key(code);
            false
        } else {
            self.browse_key(code)
        }
    }
}

} // verus!
