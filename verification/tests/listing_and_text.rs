use riftx::app::{App, KeyCode, Msg, PlanItem, Preview, SortMode, Status};
use riftx::config::{Config, HistoryEntry, ThemeName};
use riftx::providers::{gl_encode, parse_url, urlenc, Node, NodeKind, ProviderKind, RepoMeta};
use riftx::status::{preview_text, status_line};
use riftx::text::decimal_chars;
use riftx::view::size_highlighted;

fn file(name: &str, size: Option<u64>) -> Node {
    Node {
        name: name.to_string(),
        path: name.to_string(),
        kind: NodeKind::File,
        size,
        download_url: Some(format!("https://example/{name}")),
        sha: String::new(),
    }
}

fn meta() -> RepoMeta {
    RepoMeta {
        full_name: "owner/repo".to_string(),
        description: None,
        def_branch: "main".to_string(),
        stars: 7,
        forks: 1,
        private: false,
        language: None,
    }
}

fn browsing(files: Vec<Node>) -> App {
    let mut app = App::new(Config::default_config(), None);
    for ch in "owner/repo".chars() {
        app.handle_key(KeyCode::Char(ch), false);
    }
    app.handle_key(KeyCode::Enter, false);
    app.handle_msg(Msg::RepoLoaded(meta(), vec!["main".to_string()]));
    app.handle_msg(Msg::ContentsLoaded(String::new(), files));
    app.effects.clear();
    app
}

fn listed(app: &App) -> Vec<String> {
    app.filtered.iter().map(|f| app.files[f.idx].name.clone()).collect()
}

fn gitea_entry(instance: Option<&str>) -> HistoryEntry {
    HistoryEntry {
        provider: "gitea".to_string(),
        owner: "team".to_string(),
        repo: "tool".to_string(),
        branch: "main".to_string(),
        instance: instance.map(|s| s.to_string()),
    }
}

#[test]
fn size_filter_keeps_only_larger_files() {
    let mut app = browsing(vec![
        file("exact.bin", Some(1024)),
        file("over.bin", Some(1025)),
        file("small.txt", Some(10)),
    ]);
    app.handle_key(KeyCode::Char('f'), false);
    assert_eq!(app.min_size, Some(1024));
    assert_eq!(listed(&app), vec!["over.bin"]);
}

#[test]
fn size_highlight_is_strict() {
    assert!(!size_highlighted(Some(1024), Some(1024)));
    assert!(size_highlighted(Some(1024), Some(1025)));
}

#[test]
fn gitea_shortcut_uses_configured_instance() {
    let mut c = Config::default_config();
    c.auth.gitea_url = Some("https://git.example.com".to_string());
    c.history.entries.push(gitea_entry(None));
    let mut app = App::new(c, None);
    assert!(!app.handle_key(KeyCode::Char('1'), false));
    assert_eq!(app.provider, ProviderKind::Gitea);
    assert_eq!(app.owner, "team");
    assert_eq!(app.repo, "tool");
    assert_eq!(app.instance_url.as_deref(), Some("https://git.example.com"));
    assert!(app.loading);
}

#[test]
fn gitea_shortcut_prefers_recorded_instance() {
    let mut c = Config::default_config();
    c.auth.gitea_url = Some("https://other.example.org".to_string());
    c.history.entries.push(gitea_entry(Some("https://git.example.com")));
    let mut app = App::new(c, None);
    app.handle_key(KeyCode::Char('1'), false);
    assert_eq!(app.provider, ProviderKind::Gitea);
    assert_eq!(app.instance_url.as_deref(), Some("https://git.example.com"));
}

#[test]
fn gitea_shortcut_falls_back_to_public_instance() {
    let mut c = Config::default_config();
    c.history.entries.push(gitea_entry(None));
    let mut app = App::new(c, None);
    app.handle_key(KeyCode::Char('1'), false);
    assert_eq!(app.provider, ProviderKind::Gitea);
    assert_eq!(app.owner, "team");
    assert_eq!(app.instance_url.as_deref(), Some("https://gitea.com"));
}

#[test]
fn gitlab_id_is_encoded_path() {
    assert_eq!(gl_encode("group", "proj"), urlenc("group/proj"));
    assert_eq!(gl_encode("group", "proj"), "group%2Fproj");
}

#[test]
fn padding_does_not_change_an_address() {
    let plain = parse_url("github.com/owner/repo", None);
    assert_eq!(parse_url("  github.com/owner/repo/ ", None), plain);
    assert_eq!(parse_url("github.com/owner/repo//", None), plain);
    assert_eq!(plain, Some((ProviderKind::GitHub, "owner".to_string(), "repo".to_string(), None)));
}

#[test]
fn rebuilding_twice_changes_nothing() {
    let mut app = browsing(vec![file("b.rs", Some(5)), file("a.rs", Some(50)), file("c.md", Some(500))]);
    app.sort_mode = SortMode::Size;
    app.rebuild_filter();
    let first = listed(&app);
    let sel = app.list_sel;
    app.rebuild_filter();
    assert_eq!(listed(&app), first);
    assert_eq!(app.list_sel, sel);
    assert_eq!(first, vec!["c.md", "a.rs", "b.rs"]);
}

#[test]
fn decimal_digits() {
    assert_eq!(decimal_chars(0), vec!['0']);
    assert_eq!(decimal_chars(1207).into_iter().collect::<String>(), "1207");
    assert_eq!(decimal_chars(u64::MAX).into_iter().collect::<String>(), u64::MAX.to_string());
}

#[test]
fn status_lines() {
    assert_eq!(status_line(&Status::SizeFilter(Some(1024)), "1.0K"), "  size filter → >1.0K");
    assert_eq!(status_line(&Status::SizeFilter(None), ""), "  size filter → off");
    assert_eq!(status_line(&Status::SortChanged(SortMode::Size), ""), "  sort → size↓");
    assert_eq!(status_line(&Status::ThemeChanged(ThemeName::Nord), ""), "  theme → nord");
    assert_eq!(
        status_line(
            &Status::Listing {
                owner: "o".to_string(),
                repo: "r".to_string(),
                path: "src".to_string(),
                dirs: 2,
                files: 13,
            },
            ""
        ),
        "  o/r/src  2▸ 13≡"
    );
    assert_eq!(
        status_line(
            &Status::RepoInfo {
                full_name: "o/r".to_string(),
                branch: "main".to_string(),
                stars: 42,
                language: Some(String::new()),
            },
            ""
        ),
        "  o/r  ⎇ main  ★ 42"
    );
    assert_eq!(status_line(&Status::LoadingPath(String::new()), ""), "  Loading /…");
}

#[test]
fn preview_notices() {
    assert_eq!(preview_text(&Preview::NoUrl, ""), "  [no download URL]");
    assert_eq!(
        preview_text(&Preview::TooLarge { size: 3_000_000 }, "2.9M"),
        "  [too large to preview]\n  size: 2.9M\n\n  Press d to download."
    );
    assert_eq!(preview_text(&Preview::Text("hi".to_string()), ""), "hi");
}

#[test]
fn plan_total_and_its_bound() {
    let mut app = browsing(vec![file("a", Some(3))]);
    app.plan = vec![
        PlanItem { name: "a".to_string(), path: "a".to_string(), size: Some(3) },
        PlanItem { name: "b".to_string(), path: "b".to_string(), size: None },
        PlanItem { name: "c".to_string(), path: "c".to_string(), size: Some(4) },
    ];
    assert!(app.plan_total_fits());
    assert_eq!(app.plan_total_size(), 7);
    app.plan.push(PlanItem { name: "d".to_string(), path: "d".to_string(), size: Some(u64::MAX) });
    assert!(!app.plan_total_fits());
}

#[test]
fn shortcut_opens_the_recorded_repository_itself() {
    let mut c = Config::default_config();
    c.history.entries.push(HistoryEntry {
        provider: "gitlab".to_string(),
        owner: "github.comx".to_string(),
        repo: "r".to_string(),
        branch: "main".to_string(),
        instance: None,
    });
    c.history.entries.push(HistoryEntry {
        provider: "codeberg".to_string(),
        owner: "o".to_string(),
        repo: "name  ".to_string(),
        branch: "main".to_string(),
        instance: None,
    });
    let mut app = App::new(c, None);
    app.handle_key(KeyCode::Char('1'), false);
    assert_eq!(app.provider, ProviderKind::GitLab);
    assert_eq!(app.owner, "github.comx");
    assert_eq!(app.repo, "r");
    assert_eq!(app.instance_url, None);
    app.screen = riftx::app::Screen::Home;
    app.input.clear();
    app.input_cursor = 0;
    app.handle_key(KeyCode::Char('2'), false);
    assert_eq!(app.provider, ProviderKind::Codeberg);
    assert_eq!(app.repo, "name  ");
}

#[test]
fn gitea_instance_loses_trailing_slash() {
    let mut c = Config::default_config();
    c.auth.gitea_url = Some("https://git.example.com/".to_string());
    c.history.entries.push(gitea_entry(None));
    let mut app = App::new(c, None);
    app.handle_key(KeyCode::Char('1'), false);
    assert_eq!(app.instance_url.as_deref(), Some("https://git.example.com"));
}

#[test]
fn search_ignores_ascii_case() {
    let mut app = browsing(vec![file("README.md", Some(5)), file("main.rs", Some(5))]);
    app.search_query = "readme".to_string();
    app.rebuild_filter();
    assert_eq!(listed(&app), vec!["README.md"]);
    app.search_query = "MAIN".to_string();
    app.rebuild_filter();
    assert_eq!(listed(&app), vec!["main.rs"]);
}
