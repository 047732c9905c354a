use riftx::cli::{config_listing, config_set, config_unset, parse_args, parse_config_cmd, parse_u8, Command, ConfigCmd};
use riftx::config::{Config, HistoryEntry, ThemeName};

fn args(v: &[&str]) -> Vec<String> {
    v.iter().map(|s| s.to_string()).collect()
}

#[test]
fn help_and_version_anywhere() {
    assert!(matches!(parse_args(&args(&["--help"])), Command::Help));
    assert!(matches!(parse_args(&args(&["browse", "x", "-h"])), Command::Help));
    assert!(matches!(parse_args(&args(&["x", "-V"])), Command::Version));
    assert!(matches!(parse_args(&args(&["--version", "--help"])), Command::Help));
}

#[test]
fn config_subcommands() {
    assert!(matches!(parse_args(&args(&["config", "list"])), Command::Config(ConfigCmd::List)));
    match parse_args(&args(&["config", "set", "theme", "nord"])) {
        Command::Config(ConfigCmd::SetValue { key, value }) => {
            assert_eq!(key, "theme");
            assert_eq!(value, "nord");
        }
        _ => panic!("expected set"),
    }
    match parse_args(&args(&["config", "unset", "path"])) {
        Command::Config(ConfigCmd::Unset { key }) => assert_eq!(key, "path"),
        _ => panic!("expected unset"),
    }
    assert!(matches!(parse_args(&args(&["config"])), Command::Config(ConfigCmd::Usage)));
    assert!(matches!(parse_config_cmd(&args(&["list", "extra"])), ConfigCmd::Usage));
}

#[test]
fn run_options() {
    match parse_args(&args(&["browse", "o/r", "--ext", "rs", "--theme=nord"])) {
        Command::Run(a) => {
            assert_eq!(a.url, Some("o/r".to_string()));
            assert_eq!(a.ext_filter, Some("rs".to_string()));
            assert_eq!(a.theme, Some("nord".to_string()));
        }
        _ => panic!("expected run"),
    }
    match parse_args(&args(&["--ext=md", "repo/x", "--unknown"])) {
        Command::Run(a) => {
            assert_eq!(a.url, Some("repo/x".to_string()));
            assert_eq!(a.ext_filter, Some("md".to_string()));
            assert_eq!(a.theme, None);
        }
        _ => panic!("expected run"),
    }
    match parse_args(&args(&["a/b", "browse"])) {
        Command::Run(a) => assert_eq!(a.url, None),
        _ => panic!("expected run"),
    }
    match parse_args(&args(&[])) {
        Command::Run(a) => assert!(a.url.is_none() && a.ext_filter.is_none() && a.theme.is_none()),
        _ => panic!("expected run"),
    }
}

#[test]
fn numbers_for_parallel() {
    assert_eq!(parse_u8("8"), Some(8));
    assert_eq!(parse_u8("+12"), Some(12));
    assert_eq!(parse_u8("007"), Some(7));
    assert_eq!(parse_u8("255"), Some(255));
    assert_eq!(parse_u8("256"), None);
    assert_eq!(parse_u8(""), None);
    assert_eq!(parse_u8("+"), None);
    assert_eq!(parse_u8("-1"), None);
    assert_eq!(parse_u8(" 5"), None);
    assert_eq!(parse_u8("1x"), None);
}

#[test]
fn set_and_unset_keys() {
    let mut c = Config::default_config();
    assert!(config_set(&mut c, "parallel", "16".to_string()));
    assert_eq!(c.core.parallel, 16);
    assert!(config_set(&mut c, "parallel", "lots".to_string()));
    assert_eq!(c.core.parallel, 16);
    assert!(config_set(&mut c, "theme", "gruvbox".to_string()));
    assert_eq!(c.core.theme, ThemeName::Gruvbox);
    assert!(config_set(&mut c, "github_token", "tok".to_string()));
    assert_eq!(c.auth.github_token, Some("tok".to_string()));
    assert!(config_set(&mut c, "path", "/tmp/dl".to_string()));
    assert_eq!(c.core.download_path, Some("/tmp/dl".to_string()));
    assert!(!config_set(&mut c, "nope", "1".to_string()));
    assert!(config_unset(&mut c, "github_token"));
    assert_eq!(c.auth.github_token, None);
    assert!(config_unset(&mut c, "path"));
    assert_eq!(c.core.download_path, None);
    assert!(!config_unset(&mut c, "theme"));
}

#[test]
fn listing_masks_long_tokens() {
    let mut c = Config::default_config();
    c.auth.github_token = Some("ghp_abcdefghijkl".to_string());
    c.auth.gitlab_token = Some("short".to_string());
    c.auth.gitea_url = Some("https://git.example.com/x".to_string());
    let l = config_listing(&c);
    assert_eq!(l.theme, ThemeName::Amber);
    assert_eq!(l.parallel, 8);
    assert_eq!(l.download, "(default)");
    assert_eq!(l.auth[0], ("github_token".to_string(), "ghp_…ijkl".to_string()));
    assert_eq!(l.auth[1], ("gitlab_token".to_string(), "short".to_string()));
    assert_eq!(l.auth[2], ("codeberg_token".to_string(), "(not set)".to_string()));
    assert_eq!(l.auth[4], ("gitea_url".to_string(), "https://git.example.com/x".to_string()));
}

#[test]
fn themes_by_name() {
    assert_eq!(ThemeName::from_str("nord"), ThemeName::Nord);
    assert_eq!(ThemeName::from_str("bogus"), ThemeName::Amber);
    assert_eq!(ThemeName::TokyoNight.as_str(), "tokyonight");
    assert_eq!(ThemeName::all().len(), 8);
    for name in ThemeName::all() {
        assert_eq!(ThemeName::from_str(name).as_str(), name);
    }
    let mut t = ThemeName::Amber;
    for _ in 0..8 {
        t = t.next();
    }
    assert_eq!(t, ThemeName::Amber);
    assert_eq!(ThemeName::Ayu.next(), ThemeName::Amber);
}

#[test]
fn defaults_follow_the_readme() {
    let c = Config::default_config();
    assert_eq!(c.core.parallel, 8);
    assert_eq!(c.core.retry_count, 3);
    assert!(!c.core.recursive);
    assert!(!c.core.preserve_structure);
    assert!(c.core.skip_existing);
    assert_eq!(c.core.theme, ThemeName::Amber);
}

fn entry(owner: &str, repo: &str, branch: &str) -> HistoryEntry {
    HistoryEntry {
        provider: "github".to_string(),
        owner: owner.to_string(),
        repo: repo.to_string(),
        branch: branch.to_string(),
        instance: None,
    }
}

#[test]
fn history_puts_latest_first_once() {
    let mut c = Config::default_config();
    c.push_history(entry("a", "one", "main"));
    c.push_history(entry("b", "two", "main"));
    c.push_history(entry("a", "one", "dev"));
    let e = &c.history.entries;
    assert_eq!(e.len(), 2);
    assert_eq!((e[0].owner.as_str(), e[0].branch.as_str()), ("a", "dev"));
    assert_eq!(e[1].owner, "b");
}
