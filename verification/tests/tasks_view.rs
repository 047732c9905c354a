use riftx::app::DlEntry;
use riftx::providers::{Node, NodeKind};
use riftx::tasks::{DlAction, DlEvent, DlTask, Walk};
use riftx::theme::Theme;
use riftx::config::ThemeName;
use riftx::ui_logic::{centered_rect, highlight_runs, icon_for, provider_color, spinner_frame, Rect, Tint};
use riftx::view::{
    breadcrumb_parts, download_counts, downloads_popup_size, error_excerpt, home_layout, line_count, plan_popup_size,
    row_gap, scroll_percent, size_highlighted, split_suggestion, truncate_name, dl_status, DlStatus,
};

fn n(name: &str, kind: NodeKind) -> Node {
    Node { name: name.to_string(), path: name.to_string(), kind, size: None, download_url: None, sha: String::new() }
}

#[test]
fn walk_lists_each_directory_once_depth_first() {
    let mut w = Walk::new(String::new());
    assert_eq!(w.next_dir(), Some(String::new()));
    w.listed(Some(vec![n("a", NodeKind::Dir), n("x.rs", NodeKind::File), n("b", NodeKind::Dir)]));
    assert_eq!(w.found.len(), 1);
    assert_eq!(w.next_dir(), Some("b".to_string()));
    w.listed(Some(vec![n("a", NodeKind::Dir)]));
    assert_eq!(w.next_dir(), Some("a".to_string()));
    w.listed(None);
    assert_eq!(w.next_dir(), None);
    assert!(w.finished);
    assert_eq!(w.next_dir(), None);
    assert_eq!(w.visited.len(), 3);
}

#[test]
fn walk_stops_after_two_hundred_directories() {
    let mut w = Walk::new("d0".to_string());
    let mut listed = 0;
    while let Some(_) = w.next_dir() {
        listed += 1;
        let k = listed;
        w.listed(Some(vec![n(&format!("d{k}"), NodeKind::Dir)]));
    }
    assert_eq!(listed, 200);
}

#[test]
fn download_retries_with_doubling_waits() {
    let (t, a) = DlTask::start(true, true, 3);
    assert!(matches!(a, DlAction::ReportSkipped));
    assert_eq!(t.attempt, 0);
    let (mut t, a) = DlTask::start(false, true, 3);
    assert!(matches!(a, DlAction::Fetch { delay_ms: 0 }));
    let mut waits = Vec::new();
    loop {
        match t.step(DlEvent::FetchFailed("net".to_string())) {
            DlAction::Fetch { delay_ms } => waits.push(delay_ms),
            DlAction::ReportFail(e) => {
                assert_eq!(e, "net");
                break;
            }
            _ => panic!("unexpected action"),
        }
    }
    assert_eq!(waits, vec![400, 800, 1600]);
}

#[test]
fn download_write_outcomes() {
    let (mut t, _) = DlTask::start(true, false, 0);
    assert!(matches!(t.step(DlEvent::Fetched), DlAction::Write));
    assert!(matches!(t.step(DlEvent::Written), DlAction::ReportDone));
    assert!(matches!(t.step(DlEvent::WriteFailed("disk".to_string())), DlAction::ReportFail(e) if e == "disk"));
    assert!(matches!(t.step(DlEvent::FetchFailed("x".to_string())), DlAction::ReportFail(e) if e == "x"));
}

#[test]
fn names_are_cut_with_an_ellipsis() {
    assert_eq!(truncate_name("abcdefghij", 5), "abcd…");
    assert_eq!(truncate_name("abc", 5), "abc");
    assert_eq!(truncate_name("abcdef", 0), "…");
}

#[test]
fn breadcrumb_keeps_every_piece() {
    assert_eq!(breadcrumb_parts("a/b/c"), vec!["a", "b", "c"]);
    assert!(breadcrumb_parts("").is_empty());
    assert_eq!(breadcrumb_parts("a//b"), vec!["a", "", "b"]);
    assert_eq!(breadcrumb_parts("a/"), vec!["a", ""]);
}

#[test]
fn lines_and_scroll() {
    assert_eq!(line_count("a\nb"), 2);
    assert_eq!(line_count("a\n"), 1);
    assert_eq!(line_count(""), 0);
    assert_eq!(line_count("\n\n"), 2);
    assert_eq!(scroll_percent(5, 10), 50);
    assert_eq!(scroll_percent(3, 0), 300);
}

#[test]
fn popup_sizes() {
    assert_eq!(downloads_popup_size(2, 100, 40), (72, 8));
    assert_eq!(downloads_popup_size(20, 50, 20), (46, 16));
    assert_eq!(plan_popup_size(30, 100, 40), (14, 68, 24));
    assert_eq!(plan_popup_size(1, 10, 6), (1, 6, 2));
}

#[test]
fn home_layout_centers_content() {
    let l = home_layout(80, 40, 0, 0);
    assert_eq!((l.top_y, l.tag_y, l.box_x, l.box_y, l.box_w), (13, 19, 7, 21, 66));
    assert!(!l.dropdown);
    assert_eq!((l.hint_y, l.hist_y), (24, 26));
    let l = home_layout(80, 40, 3, 2);
    assert_eq!(l.top_y, 10);
    assert!(l.dropdown);
    assert_eq!(l.hint_y, 25);
}

#[test]
fn suggestion_split_and_error_excerpt() {
    assert_eq!(split_suggestion("git", "github.com/"), ("git".to_string(), "hub.com/".to_string()));
    assert_eq!(split_suggestion("longer input", "ab"), ("ab".to_string(), String::new()));
    assert_eq!(error_excerpt(&"x".repeat(40)), "x".repeat(30));
    assert_eq!(error_excerpt("short"), "short");
}

#[test]
fn row_helpers() {
    assert_eq!(row_gap(40, 10, false, 4), 22);
    assert_eq!(row_gap(10, 10, true, 4), 1);
    assert!(size_highlighted(Some(1024), Some(2048)));
    assert!(!size_highlighted(Some(1024), None));
    assert!(!size_highlighted(None, Some(5)));
}

#[test]
fn download_counts_and_status() {
    let e = |done: bool, skipped: bool, error: Option<&str>| DlEntry {
        name: "n".to_string(),
        path: "p".to_string(),
        done,
        skipped,
        error: error.map(|s| s.to_string()),
    };
    let ds = vec![e(false, false, None), e(true, false, None), e(true, true, None), e(false, false, Some("x"))];
    assert_eq!(download_counts(&ds), (1, 2, 1));
    assert_eq!(dl_status(&ds[0]), DlStatus::Running);
    assert_eq!(dl_status(&ds[2]), DlStatus::Skipped);
    assert_eq!(dl_status(&ds[3]), DlStatus::Failed);
}

#[test]
fn spinner_frames_last_three_ticks() {
    assert_eq!(spinner_frame(0), "⠋");
    assert_eq!(spinner_frame(2), "⠋");
    assert_eq!(spinner_frame(3), "⠙");
    assert_eq!(spinner_frame(29), "⠏");
    assert_eq!(spinner_frame(30), "⠋");
}

#[test]
fn icons_by_name() {
    assert_eq!(icon_for("main.rs", false), ("●", Tint::Orange));
    assert_eq!(icon_for("src", true), ("▸", Tint::Accent));
    assert_eq!(icon_for("Dockerfile", false), ("■", Tint::Cyan));
    assert_eq!(icon_for("Makefile.am", false), ("■", Tint::Yellow));
    assert_eq!(icon_for(".gitignore", false), ("■", Tint::Dim));
    assert_eq!(icon_for("LICENSE", false), ("≡", Tint::Mid));
    assert_eq!(icon_for("README.md", false), ("≡", Tint::Blue));
    assert_eq!(icon_for("Cargo.lock", false), ("-", Tint::Dim));
    assert_eq!(icon_for("photo.JPG", false), ("□", Tint::Teal));
    assert_eq!(icon_for("schema.graphql", false), ("◈", Tint::Pink));
    assert_eq!(icon_for("x.unknown", false), ("·", Tint::Dim));
}

#[test]
fn colors_and_placement() {
    let t = Theme::get(&ThemeName::Nord);
    assert_eq!(provider_color("gitlab", &t), t.orange);
    assert_eq!(provider_color("other", &t), t.dim);
    let r = centered_rect(10, 4, Rect { x: 5, y: 5, width: 30, height: 10 });
    assert_eq!(r, Rect { x: 10, y: 3, width: 10, height: 4 });
    let r = centered_rect(50, 4, Rect { x: 0, y: 0, width: 30, height: 10 });
    assert_eq!((r.x, r.width), (0, 50));
}

#[test]
fn highlighted_runs() {
    assert_eq!(
        highlight_runs("abcd", &[1, 2]),
        vec![("a".to_string(), false), ("bc".to_string(), true), ("d".to_string(), false)]
    );
    assert_eq!(highlight_runs("ab", &[]), vec![("ab".to_string(), false)]);
    assert_eq!(highlight_runs("ab", &[0]), vec![("a".to_string(), true), ("b".to_string(), false)]);
    assert_eq!(highlight_runs("", &[0]), Vec::<(String, bool)>::new());
    assert_eq!(highlight_runs("", &[]), vec![(String::new(), false)]);
}

#[test]
fn names_are_cut_by_bytes() {
    assert_eq!(truncate_name("ééé", 3), "é…");
    assert_eq!(truncate_name("éé", 4), "éé");
}

#[test]
fn breadcrumb_pieces_join_back() {
    for p in ["a/b/c", "a//b", "a/", "/x"] {
        assert_eq!(breadcrumb_parts(p).join("/"), p);
    }
}
