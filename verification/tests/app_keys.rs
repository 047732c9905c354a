use riftx::app::{App, DlEntry, Effect, KeyCode, Msg, Screen, SearchMode, SortMode, Status};
use riftx::config::{Config, HistoryEntry, ThemeName};
use riftx::providers::{Node, NodeKind, ProviderKind, RepoMeta};
use riftx::view::{BottomView, ListTitle, RowMark, TopItem};

fn fresh() -> App {
    App::new(Config::default_config(), Some("/home/u/Downloads".to_string()))
}

fn with_history() -> App {
    let mut c = Config::default_config();
    c.history.entries.push(HistoryEntry {
        provider: "gitlab".to_string(),
        owner: "me".to_string(),
        repo: "proj".to_string(),
        branch: "main".to_string(),
        instance: None,
    });
    App::new(c, None)
}

fn typed(app: &mut App, s: &str) {
    for ch in s.chars() {
        assert!(!app.handle_key(KeyCode::Char(ch), false));
    }
}

fn file(name: &str, size: Option<u64>) -> Node {
    Node {
        name: name.to_string(),
        path: name.to_string(),
        kind: NodeKind::File,
        size,
        download_url: Some(format!("https://example/{name}")),
        sha: String::new(),
    }
}

fn dir(name: &str) -> Node {
    Node { name: name.to_string(), path: name.to_string(), kind: NodeKind::Dir, size: None, download_url: None, sha: String::new() }
}

fn meta() -> RepoMeta {
    RepoMeta {
        full_name: "owner/repo".to_string(),
        description: None,
        def_branch: "main".to_string(),
        stars: 7,
        forks: 1,
        private: false,
        language: Some("Rust".to_string()),
    }
}

/// A browser showing `src/`, `a.rs` and `b.md` of owner/repo.
fn browsing() -> App {
    let mut app = fresh();
    typed(&mut app, "owner/repo");
    app.handle_key(KeyCode::Enter, false);
    app.handle_msg(Msg::RepoLoaded(meta(), vec!["main".to_string(), "dev".to_string()]));
    app.handle_msg(Msg::ContentsLoaded(String::new(), vec![dir("src"), file("a.rs", Some(10)), file("b.md", None)]));
    app.effects.clear();
    app
}

fn listed(app: &App) -> Vec<String> {
    app.filtered.iter().map(|f| app.files[f.idx].name.clone()).collect()
}

#[test]
fn new_app_starts_home() {
    let app = fresh();
    assert_eq!(app.screen, Screen::Home);
    assert!(matches!(app.status, Status::Welcome));
    assert_eq!(app.theme_name, ThemeName::Amber);
    assert!(app.effects.is_empty());
}

#[test]
fn typing_moves_the_byte_cursor() {
    let mut app = fresh();
    typed(&mut app, "ab");
    assert_eq!((app.input.as_str(), app.input_cursor), ("ab", 2));
    app.handle_key(KeyCode::Left, false);
    typed(&mut app, "x");
    assert_eq!((app.input.as_str(), app.input_cursor), ("axb", 2));
    app.handle_key(KeyCode::Backspace, false);
    assert_eq!((app.input.as_str(), app.input_cursor), ("ab", 1));
    app.handle_key(KeyCode::Home, false);
    assert_eq!(app.input_cursor, 0);
    app.handle_key(KeyCode::End, false);
    assert_eq!(app.input_cursor, 2);
}

#[test]
fn backspace_inside_a_wide_character_removes_it() {
    let mut app = fresh();
    typed(&mut app, "abé");
    assert_eq!(app.input_cursor, 4);
    app.handle_key(KeyCode::Left, false);
    assert_eq!(app.input_cursor, 3);
    app.handle_key(KeyCode::Backspace, false);
    assert_eq!((app.input.as_str(), app.input_cursor), ("ab", 2));
}

#[test]
fn home_shortcuts_on_empty_input() {
    let mut app = fresh();
    assert!(app.handle_key(KeyCode::Char('q'), false));
    assert!(app.handle_key(KeyCode::Esc, false));
    assert!(!app.handle_key(KeyCode::Char('C'), false));
    assert_eq!(app.screen, Screen::Config);
    let mut app = fresh();
    app.handle_key(KeyCode::Char('T'), false);
    assert_eq!(app.theme_name, ThemeName::Dracula);
    assert!(matches!(app.effects.last(), Some(Effect::SaveConfig)));
    let mut app = fresh();
    typed(&mut app, "aq");
    assert_eq!(app.input, "aq");
}

#[test]
fn enter_opens_a_repository() {
    let mut app = fresh();
    typed(&mut app, "owner/repo");
    assert!(!app.handle_key(KeyCode::Enter, false));
    assert!(app.loading);
    assert_eq!((app.owner.as_str(), app.repo.as_str()), ("owner", "repo"));
    assert!(matches!(&app.status, Status::LoadingRepo { kind: ProviderKind::GitHub, .. }));
    assert_eq!(app.effects.len(), 2);
    assert!(matches!(&app.effects[0], Effect::RebuildClient { kind: ProviderKind::GitHub, token: None, parallel: 8, .. }));
    assert!(matches!(&app.effects[1], Effect::LoadRepo { owner, repo } if owner == "owner" && repo == "repo"));
}

#[test]
fn enter_rejects_what_names_no_repository() {
    let mut app = fresh();
    typed(&mut app, "example.com/x");
    app.handle_key(KeyCode::Enter, false);
    assert_eq!(app.error, Some("invalid URL — try github.com/owner/repo".to_string()));
    assert!(app.effects.is_empty());
}

#[test]
fn suggestions_from_history_and_prefixes() {
    let mut app = with_history();
    typed(&mut app, "pro");
    assert_eq!(app.autocomplete_suggestions, vec!["me/proj".to_string(), "gitlab.com/me/proj".to_string()]);
    app.handle_key(KeyCode::Tab, false);
    assert_eq!((app.input.as_str(), app.input_cursor), ("me/proj", 7));
    assert!(app.autocomplete_suggestions.is_empty());

    let mut app = with_history();
    typed(&mut app, "gi");
    assert_eq!(
        app.autocomplete_suggestions,
        vec!["gitlab.com/me/proj".to_string(), "github.com/".to_string(), "gitlab.com/".to_string()]
    );
    app.handle_key(KeyCode::Down, false);
    app.handle_key(KeyCode::Down, false);
    assert_eq!(app.autocomplete_idx, Some(1));
    app.handle_key(KeyCode::Up, false);
    app.handle_key(KeyCode::Up, false);
    assert_eq!(app.autocomplete_idx, Some(2));
    app.handle_key(KeyCode::Enter, false);
    assert_eq!(app.input, "gitlab.com/");
}

#[test]
fn digit_opens_recent_repository() {
    let mut app = with_history();
    app.handle_key(KeyCode::Char('1'), false);
    assert_eq!(app.provider, ProviderKind::GitLab);
    assert!(matches!(&app.effects[1], Effect::LoadRepo { owner, repo } if owner == "me" && repo == "proj"));
    let mut app = with_history();
    app.handle_key(KeyCode::Char('2'), false);
    assert_eq!(app.input, "2");
}

#[test]
fn repository_and_listing_arrive() {
    let app = browsing();
    assert_eq!(app.screen, Screen::Browser);
    assert_eq!(app.branch, "main");
    assert_eq!(app.branch_sel, Some(0));
    assert_eq!(app.config.history.entries[0].provider, "github");
    assert_eq!(listed(&app), vec!["src", "a.rs", "b.md"]);
    assert_eq!(app.list_sel, Some(0));
    assert!(matches!(&app.status, Status::Listing { dirs: 1, files: 2, .. }));
}

#[test]
fn navigation_and_selection() {
    let mut app = browsing();
    app.handle_key(KeyCode::Char('j'), false);
    assert_eq!(app.list_sel, Some(1));
    app.handle_key(KeyCode::Char(' '), false);
    assert_eq!(app.selected, vec!["a.rs".to_string()]);
    app.handle_key(KeyCode::Char(' '), false);
    assert!(app.selected.is_empty());
    app.handle_key(KeyCode::Char('a'), false);
    assert_eq!(app.selected.len(), 3);
    app.handle_key(KeyCode::Char('u'), false);
    assert!(app.selected.is_empty());
    app.handle_key(KeyCode::Char('i'), false);
    assert_eq!(app.selected.len(), 3);
    app.handle_key(KeyCode::Char('i'), false);
    assert!(app.selected.is_empty());
    app.handle_key(KeyCode::Char('G'), false);
    assert_eq!(app.list_sel, Some(2));
    app.handle_key(KeyCode::Char('d'), true);
    assert_eq!(app.list_sel, Some(2));
    app.handle_key(KeyCode::Char('u'), true);
    assert_eq!(app.list_sel, Some(0));
}

#[test]
fn sort_size_filter_and_clearing() {
    let mut app = browsing();
    app.handle_key(KeyCode::Char('S'), false);
    assert_eq!(app.sort_mode, SortMode::Name);
    assert!(matches!(app.status, Status::SortChanged(SortMode::Name)));
    assert_eq!(listed(&app), vec!["a.rs", "b.md", "src"]);
    app.handle_key(KeyCode::Char('f'), false);
    assert_eq!(app.min_size, Some(1024));
    assert_eq!(listed(&app), vec!["src"]);
    app.handle_key(KeyCode::Char('x'), false);
    assert_eq!(app.min_size, None);
    assert_eq!(listed(&app).len(), 3);
    for _ in 0..3 {
        app.handle_key(KeyCode::Char('S'), false);
    }
    assert_eq!(app.sort_mode, SortMode::Default);
}

#[test]
fn search_typing_and_cancel() {
    let mut app = browsing();
    app.handle_key(KeyCode::Char('/'), false);
    assert_eq!(app.search_mode, SearchMode::Name);
    typed(&mut app, "a.");
    assert_eq!(app.search_query, "a.");
    assert_eq!(listed(&app), vec!["a.rs"]);
    app.handle_key(KeyCode::Esc, false);
    assert_eq!(app.search_mode, SearchMode::Off);
    assert_eq!(app.search_query, "");
    assert_eq!(listed(&app).len(), 3);
}

#[test]
fn pins_toggle() {
    let mut app = browsing();
    app.handle_key(KeyCode::Char('m'), false);
    assert_eq!(app.bookmarks, vec!["src".to_string()]);
    assert!(matches!(&app.status, Status::Pinned(n) if n == "src"));
    app.handle_key(KeyCode::Char('m'), false);
    assert!(app.bookmarks.is_empty());
    assert!(matches!(&app.status, Status::Unpinned(n) if n == "src"));
}

#[test]
fn entering_a_directory_and_quitting() {
    let mut app = browsing();
    assert!(app.handle_key(KeyCode::Char('q'), false));
    app.handle_key(KeyCode::Enter, false);
    assert_eq!(app.path_stack, vec![String::new()]);
    assert!(matches!(&app.effects[0], Effect::LoadContents { path, .. } if path == "src"));
    assert!(matches!(&app.status, Status::LoadingPath(p) if p == "src"));
    app.handle_msg(Msg::ContentsLoaded("src".to_string(), vec![file("lib.rs", Some(5))]));
    assert!(!app.handle_key(KeyCode::Char('q'), false));
    assert!(app.path_stack.is_empty());
}

#[test]
fn download_now_and_through_a_plan() {
    let mut app = browsing();
    app.handle_key(KeyCode::Char('j'), false);
    app.handle_key(KeyCode::Char('D'), false);
    assert_eq!(app.downloads.len(), 1);
    assert!(matches!(&app.effects[0], Effect::Download { path, dest, skip_existing: true, retry_count: 3, .. }
        if path == "a.rs" && dest == "a.rs"));
    app.effects.clear();
    app.handle_key(KeyCode::Char('d'), false);
    assert_eq!(app.screen, Screen::DownloadPlan);
    assert_eq!(app.plan.len(), 1);
    assert_eq!(app.plan[0].path, "a.rs");
    app.handle_key(KeyCode::Char('s'), false);
    assert!(app.dl_preserve_structure);
    app.handle_key(KeyCode::Enter, false);
    assert_eq!(app.screen, Screen::Downloads);
    assert_eq!(app.downloads.len(), 2);
}

#[test]
fn downloads_panel_clears_finished() {
    let mut app = browsing();
    assert!(!app.handle_key(KeyCode::Char('O'), false));
    assert!(matches!(app.status, Status::NoDownloads));
    let entry = |name: &str, done: bool, error: Option<&str>| DlEntry {
        name: name.to_string(),
        path: name.to_string(),
        done,
        skipped: false,
        error: error.map(|e| e.to_string()),
    };
    app.downloads = vec![entry("a", true, None), entry("b", false, None), entry("c", false, Some("x"))];
    app.handle_key(KeyCode::Char('O'), false);
    assert_eq!(app.screen, Screen::Downloads);
    app.handle_key(KeyCode::Char('c'), false);
    assert_eq!(app.downloads.len(), 1);
    assert_eq!(app.downloads[0].name, "b");
    app.handle_key(KeyCode::Esc, false);
    assert_eq!(app.screen, Screen::Browser);
}

#[test]
fn branch_picker_switches_branch() {
    let mut app = browsing();
    app.handle_key(KeyCode::Char('b'), false);
    assert_eq!(app.screen, Screen::BranchPopup);
    app.handle_key(KeyCode::Down, false);
    app.handle_key(KeyCode::Down, false);
    assert_eq!(app.branch_sel, Some(1));
    app.handle_key(KeyCode::Enter, false);
    assert_eq!(app.branch, "dev");
    assert_eq!(app.screen, Screen::Browser);
    assert!(matches!(&app.effects[0], Effect::LoadContents { path, branch, .. } if path.is_empty() && branch == "dev"));
}

#[test]
fn help_closes_on_any_key_and_control_chords() {
    let mut app = browsing();
    app.handle_key(KeyCode::Char('?'), false);
    assert_eq!(app.screen, Screen::Help);
    app.handle_key(KeyCode::Char('z'), false);
    assert_eq!(app.screen, Screen::Browser);
    app.handle_key(KeyCode::Down, true);
    assert_eq!(app.preview_scroll, 5);
    app.handle_key(KeyCode::Up, true);
    app.handle_key(KeyCode::Up, true);
    assert_eq!(app.preview_scroll, 0);
    app.handle_key(KeyCode::Char('t'), true);
    assert_eq!(app.theme_name, ThemeName::Dracula);
    assert_eq!(app.config.core.theme, ThemeName::Dracula);
    assert!(app.handle_key(KeyCode::Char('c'), true));
}

#[test]
fn configuration_screen_edits_a_token() {
    let mut app = fresh();
    app.handle_key(KeyCode::Char('C'), false);
    app.handle_key(KeyCode::Enter, false);
    assert!(app.cfg_editing);
    assert_eq!(app.cfg_buf, "");
    typed(&mut app, "abc");
    app.handle_key(KeyCode::Backspace, false);
    app.handle_key(KeyCode::Enter, false);
    assert!(!app.cfg_editing);
    assert_eq!(app.config.auth.github_token, Some("ab".to_string()));
    assert!(matches!(app.status, Status::ConfigSaved));
    assert!(matches!(app.effects.last(), Some(Effect::SaveConfig)));
    for _ in 0..9 {
        app.handle_key(KeyCode::Char('j'), false);
    }
    assert_eq!(app.cfg_field, 5);
    assert_eq!(app.cfg_field_value_pub(0), "ab");
    app.handle_key(KeyCode::Enter, false);
    app.handle_key(KeyCode::Enter, false);
    assert_eq!(app.config.core.download_path, Some("/home/u/Downloads".to_string()));
    app.handle_key(KeyCode::Char('q'), false);
    assert_eq!(app.screen, Screen::Home);
}

#[test]
fn finished_downloads_update_entries() {
    let mut app = browsing();
    app.handle_key(KeyCode::Char('j'), false);
    app.handle_key(KeyCode::Char(' '), false);
    app.handle_key(KeyCode::Char('D'), false);
    app.handle_msg(Msg::DownloadDone { path: "a.rs".to_string(), dest: "/d/a.rs".to_string() });
    assert!(app.downloads[0].done);
    assert!(app.selected.is_empty());
    assert!(matches!(&app.status, Status::Downloaded { name, dest } if name == "a.rs" && dest == "/d/a.rs"));
    app.handle_msg(Msg::DownloadFail { path: "a.rs".to_string(), error: "boom".to_string() });
    assert_eq!(app.downloads[0].error, Some("boom".to_string()));
    assert_eq!(app.error, Some("download failed: boom".to_string()));
}

#[test]
fn cursor_counts_bytes_not_characters() {
    let mut app = fresh();
    typed(&mut app, "é");
    app.handle_key(KeyCode::Home, false);
    assert_eq!(app.input_cursor, 0);
    app.handle_key(KeyCode::End, false);
    assert_eq!(app.input_cursor, 2);
    app.handle_key(KeyCode::Right, false);
    assert_eq!(app.input_cursor, 2);
}

#[test]
fn four_size_filter_presses_come_back() {
    let mut app = browsing();
    let mut seen = Vec::new();
    for _ in 0..4 {
        app.handle_key(KeyCode::Char('f'), false);
        seen.push(app.min_size);
    }
    assert_eq!(seen, vec![Some(1024), Some(100_000), Some(1_000_000), None]);
    assert!(matches!(app.status, Status::SizeFilter(None)));
}

#[test]
fn eight_theme_presses_come_back() {
    let mut app = browsing();
    for _ in 0..8 {
        app.handle_key(KeyCode::Char('T'), false);
    }
    assert_eq!(app.theme_name, ThemeName::Amber);
    assert_eq!(app.effects.len(), 8);
}

#[test]
fn suggestions_never_repeat() {
    let mut c = Config::default_config();
    for provider in ["github", "gitlab"] {
        c.history.entries.push(HistoryEntry {
            provider: provider.to_string(),
            owner: "a".to_string(),
            repo: "x".to_string(),
            branch: "main".to_string(),
            instance: None,
        });
    }
    let mut app = App::new(c, None);
    typed(&mut app, "a/x");
    assert_eq!(
        app.autocomplete_suggestions,
        vec!["a/x".to_string(), "github.com/a/x".to_string(), "gitlab.com/a/x".to_string()]
    );
}

#[test]
fn what_the_browser_shows() {
    let mut app = browsing();
    let top = app.top_bar();
    assert_eq!(top.len(), 3);
    assert!(matches!(&top[0], TopItem::Repo { owner, repo, branch } if owner == "owner" && repo == "repo" && branch == "main"));
    assert!(matches!(top[1], TopItem::Stars(7)));
    assert!(matches!(&top[2], TopItem::Language(l) if l == "Rust"));
    assert!(matches!(app.list_title(), ListTitle::Counts { dirs: 1, files: 2, selected: 0, sort: None }));
    assert!(matches!(app.bottom_bar(), BottomView::Status));
    let src = "src".to_string();
    assert_eq!(app.row_mark(&src), RowMark::Plain);
    app.handle_key(KeyCode::Char('m'), false);
    assert_eq!(app.row_mark(&src), RowMark::Pinned);
    app.handle_key(KeyCode::Char(' '), false);
    assert_eq!(app.row_mark(&src), RowMark::Selected);
    assert!(matches!(app.bottom_bar(), BottomView::Selected(1)));
    app.handle_key(KeyCode::Char('/'), false);
    assert!(matches!(app.list_title(), ListTitle::Search { mode: SearchMode::Name, typing: true, matches: 3 }));
    assert!(matches!(app.bottom_bar(), BottomView::Search(SearchMode::Name)));
}

#[test]
fn configuration_fields_as_shown() {
    let mut app = fresh();
    assert_eq!(app.cfg_display(0), "(not set)  # github_token");
    assert_eq!(app.cfg_display(4), "(not set)  # gitea_url (self-hosted)");
    app.config.auth.github_token = Some("ghp_1234567890".to_string());
    assert_eq!(app.cfg_display(0), "ghp_…7890");
    app.config.auth.gitea_url = Some("https://git.example.com".to_string());
    assert_eq!(app.cfg_display(4), "https://git.example.com");
    app.handle_key(KeyCode::Char('C'), false);
    app.handle_key(KeyCode::Enter, false);
    assert_eq!(app.cfg_display(0), "ghp_1234567890_");
}
