use riftx::providers::{
    api_base_url, api_error_message, auth_header, branches_api_url, contents_api_url, file_ext, gitlab_file_url,
    gitlab_nodes, gitlab_repo_meta, gl_encode, is_binary_ext, nodes_from_entries, parse_url, raw_url, repo_api_url,
    sort_nodes, urlenc, Node, NodeKind, ProviderKind, RawEntry,
};

fn node(name: &str, kind: NodeKind) -> Node {
    Node {
        name: name.to_string(),
        path: name.to_string(),
        kind,
        size: None,
        download_url: None,
        sha: String::new(),
    }
}

#[test]
fn parse_url_hosts() {
    assert_eq!(
        parse_url("github.com/rust-lang/rust", None),
        Some((ProviderKind::GitHub, "rust-lang".to_string(), "rust".to_string(), None))
    );
    assert_eq!(
        parse_url("https://gitlab.com/gitlab-org/gitlab/", None),
        Some((ProviderKind::GitLab, "gitlab-org".to_string(), "gitlab".to_string(), None))
    );
    assert_eq!(
        parse_url("https://codeberg.org/forgejo/forgejo/src/branch/main", None),
        Some((ProviderKind::Codeberg, "forgejo".to_string(), "forgejo".to_string(), None))
    );
}

#[test]
fn parse_url_shorthand_and_rejects() {
    assert_eq!(
        parse_url("  owner/repo  ", None),
        Some((ProviderKind::GitHub, "owner".to_string(), "repo".to_string(), None))
    );
    assert_eq!(parse_url("example.com/a/b", None), None);
    assert_eq!(parse_url("justone", None), None);
    assert_eq!(parse_url("", None), None);
}

#[test]
fn parse_url_gitea_instance() {
    assert_eq!(
        parse_url("https://git.example.com/me/proj", Some("https://git.example.com/")),
        Some((
            ProviderKind::Gitea,
            "me".to_string(),
            "proj".to_string(),
            Some("https://git.example.com".to_string())
        ))
    );
}

#[test]
fn raw_urls_per_provider() {
    assert_eq!(
        raw_url(ProviderKind::GitHub, None, "o", "r", "main", "src/lib.rs"),
        "https://raw.githubusercontent.com/o/r/main/src/lib.rs"
    );
    assert_eq!(raw_url(ProviderKind::GitLab, None, "o", "r", "main", "a.txt"), "https://gitlab.com/o/r/-/raw/main/a.txt");
    assert_eq!(
        raw_url(ProviderKind::Codeberg, None, "o", "r", "main", "a.txt"),
        "https://codeberg.org/o/r/raw/branch/main/a.txt"
    );
    assert_eq!(raw_url(ProviderKind::Gitea, None, "o", "r", "dev", "a"), "https://gitea.com/o/r/raw/branch/dev/a");
    assert_eq!(
        raw_url(ProviderKind::Gitea, Some("https://git.x"), "o", "r", "dev", "a"),
        "https://git.x/o/r/raw/branch/dev/a"
    );
}

#[test]
fn binary_extensions() {
    assert!(is_binary_ext("logo.PNG"));
    assert!(is_binary_ext("archive.tar.gz"));
    assert!(!is_binary_ext("main.rs"));
    assert!(!is_binary_ext("Makefile"));
}

#[test]
fn file_extensions() {
    assert_eq!(file_ext("a.tar.gz"), "gz");
    assert_eq!(file_ext("Makefile"), "Makefile");
    assert_eq!(file_ext("x."), "");
}

#[test]
fn provider_detection_and_labels() {
    assert_eq!(ProviderKind::detect("https://GitHub.com/x"), Some((ProviderKind::GitHub, None)));
    assert_eq!(ProviderKind::detect("gitlab.com/a/b"), Some((ProviderKind::GitLab, None)));
    assert_eq!(ProviderKind::detect("https://codeberg.org/a"), Some((ProviderKind::Codeberg, None)));
    assert_eq!(ProviderKind::detect("https://example.org"), None);
    assert_eq!(ProviderKind::Gitea.label(), "Gitea");
    assert_eq!(ProviderKind::Codeberg.badge(), "CB");
}

#[test]
fn gitlab_ids_and_escapes() {
    assert_eq!(gl_encode("o", "r"), "o%2Fr");
    assert_eq!(urlenc("a/b c/d"), "a%2Fb c%2Fd");
    assert_eq!(urlenc("plain"), "plain");
}

#[test]
fn api_endpoints() {
    assert_eq!(api_base_url(ProviderKind::GitHub, None), "https://api.github.com");
    assert_eq!(api_base_url(ProviderKind::GitLab, None), "https://gitlab.com/api/v4");
    assert_eq!(api_base_url(ProviderKind::Codeberg, None), "https://codeberg.org/api/v1");
    assert_eq!(api_base_url(ProviderKind::Gitea, None), "https://gitea.com/api/v1");
    assert_eq!(api_base_url(ProviderKind::Gitea, Some("https://git.x/")), "https://git.x/api/v1");
    let gh = "https://api.github.com";
    let gl = "https://gitlab.com/api/v4";
    assert_eq!(repo_api_url(ProviderKind::GitHub, gh, "o", "r"), "https://api.github.com/repos/o/r");
    assert_eq!(repo_api_url(ProviderKind::GitLab, gl, "o", "r"), "https://gitlab.com/api/v4/projects/o%2Fr");
    assert_eq!(
        contents_api_url(ProviderKind::GitHub, gh, "o", "r", "src", "main"),
        "https://api.github.com/repos/o/r/contents/src?ref=main"
    );
    assert_eq!(
        contents_api_url(ProviderKind::GitLab, gl, "o", "r", "src", "main"),
        "https://gitlab.com/api/v4/projects/o%2Fr/repository/tree?ref=main&per_page=100&path=src"
    );
    assert_eq!(
        contents_api_url(ProviderKind::GitLab, gl, "o", "r", "", "main"),
        "https://gitlab.com/api/v4/projects/o%2Fr/repository/tree?ref=main&per_page=100"
    );
    assert_eq!(
        branches_api_url(ProviderKind::GitHub, gh, "o", "r"),
        "https://api.github.com/repos/o/r/branches?per_page=100"
    );
    assert_eq!(
        branches_api_url(ProviderKind::GitLab, gl, "o", "r"),
        "https://gitlab.com/api/v4/projects/o%2Fr/repository/branches?per_page=100"
    );
    assert_eq!(
        branches_api_url(ProviderKind::Gitea, "https://gitea.com/api/v1", "o", "r"),
        "https://gitea.com/api/v1/repos/o/r/branches?limit=100"
    );
    assert_eq!(
        gitlab_file_url(gl, "o", "r", "src/a.rs", "main"),
        "https://gitlab.com/api/v4/projects/o%2Fr/repository/files/src%2Fa.rs/raw?ref=main"
    );
}

#[test]
fn auth_headers() {
    assert_eq!(auth_header(ProviderKind::GitHub, Some("t")), Some("token t".to_string()));
    assert_eq!(auth_header(ProviderKind::GitLab, Some("t")), Some("Bearer t".to_string()));
    assert_eq!(auth_header(ProviderKind::Gitea, Some("t")), Some("token t".to_string()));
    assert_eq!(auth_header(ProviderKind::Codeberg, None), None);
}

#[test]
fn listing_order_dirs_first_then_names() {
    let mut v = vec![
        node("b.txt", NodeKind::File),
        node("src", NodeKind::Dir),
        node("A.md", NodeKind::File),
        node("docs", NodeKind::Dir),
    ];
    sort_nodes(&mut v);
    let names: Vec<&str> = v.iter().map(|n| n.name.as_str()).collect();
    assert_eq!(names, vec!["docs", "src", "A.md", "b.txt"]);
}

#[test]
fn entries_become_sorted_nodes() {
    let entries = vec![
        RawEntry {
            name: "z.rs".into(),
            path: "z.rs".into(),
            kind: "file".into(),
            size: Some(3),
            download_url: Some("u".into()),
            sha: "1".into(),
        },
        RawEntry { name: "lib".into(), path: "lib".into(), kind: "dir".into(), size: None, download_url: None, sha: "2".into() },
    ];
    let nodes = nodes_from_entries(&entries);
    assert_eq!(nodes[0].name, "lib");
    assert_eq!(nodes[0].kind, NodeKind::Dir);
    assert_eq!(nodes[1].kind, NodeKind::File);
    assert_eq!(nodes[1].size, Some(3));
    assert_eq!(nodes[1].download_url, Some("u".to_string()));
}

#[test]
fn gitlab_entries_get_file_urls() {
    let entries = vec![
        RawEntry { name: "a.rs".into(), path: "src/a.rs".into(), kind: "blob".into(), size: None, download_url: None, sha: "x".into() },
        RawEntry { name: "src".into(), path: "src".into(), kind: "tree".into(), size: None, download_url: None, sha: "y".into() },
    ];
    let nodes = gitlab_nodes("https://gitlab.com/api/v4", "o", "r", "main", &entries);
    assert_eq!(nodes[0].name, "src");
    assert_eq!(nodes[0].download_url, None);
    assert_eq!(
        nodes[1].download_url,
        Some("https://gitlab.com/api/v4/projects/o%2Fr/repository/files/src%2Fa.rs/raw?ref=main".to_string())
    );
    assert_eq!(nodes[1].sha, "x");
}

#[test]
fn gitlab_project_metadata() {
    let m = gitlab_repo_meta("g / p".into(), None, None, 5, 2, "private");
    assert_eq!(m.def_branch, "main");
    assert!(m.private);
    assert_eq!(m.stars, 5);
    assert_eq!(m.language, None);
    let m2 = gitlab_repo_meta("g / p".into(), Some("d".into()), Some("dev".into()), 0, 0, "public");
    assert_eq!(m2.def_branch, "dev");
    assert!(!m2.private);
}

#[test]
fn api_error_text() {
    assert_eq!(api_error_message(404, "{\"message\":\"Not Found\"}"), "Not Found (HTTP 404)");
    assert_eq!(api_error_message(500, "oops"), "HTTP 500 (HTTP 500)");
    assert_eq!(api_error_message(403, "{\"message\": 3}"), "HTTP 403 (HTTP 403)");
}

#[test]
fn github_module_helpers() {
    assert_eq!(riftx::github::parse_url("https://github.com/a/b/tree/main"), Some(("a".to_string(), "b".to_string())));
    assert_eq!(riftx::github::parse_url("gitlab.com/a/b"), Some(("gitlab.com".to_string(), "a".to_string())));
    assert_eq!(riftx::github::parse_url("solo"), None);
    assert_eq!(riftx::github::raw_url("o", "r", "b", "p"), "https://raw.githubusercontent.com/o/r/b/p");
    assert!(riftx::github::is_binary_ext("x.WASM"));
    assert_eq!(riftx::github::error_message(404, "{\"message\":\"Not Found\"}"), "Not Found (HTTP 404)");
    assert_eq!(riftx::github::error_message(500, "x"), "unknown error (HTTP 500)");
}
