//! Hosting providers: repository URLs, raw-file URLs, API endpoints, and the
//! shared listing model with its directory-first order.
use vstd::prelude::*;
use crate::text::{
    chars_of, string_of, lowercase, lower_chars, to_lower, copy_range, copy_all, push_all, push_str,
    chars_eq_str, trim, trim_chars, find_from, occurs_at, trim_end_char, trim_end_char_chars, find, find_chars,
    contains, contains_str, split_parts, split_nonempty, has_char, after_last, after_last_chars,
    after_last_start, decimal, decimal_chars,
    lemma_find_from_bounds,
};
use crate::sorting::{SortKey, KeyV, stable_order, is_stable_order};
use vstd::string::StrSliceExecFns;

verus! {

// ─── Shared Node type ─────────────────────────────────────────────────────────

#[derive(Debug, Clone, Copy, PartialEq, Eq, Structural)]
pub enum NodeKind {
    Dir,
    File,
}

#[derive(Debug)]
pub struct Node {
    pub name: String,
    pub path: String,
    pub kind: NodeKind,
    pub size: Option<u64>,
    pub download_url: Option<String>,
    pub sha: String,
}

pub fn clone_opt_string(o: &Option<String>) -> (r: Option<String>)
    ensures
        r == *o,
{
    match o {
        Some(s) => Some(s.clone()),
        None => None,
    }
}

impl Clone for Node {
    fn clone(&self) -> (r: Self)
        ensures
            r == *self,
    {
        Node {
            name: self.name.clone(),
            path: self.path.clone(),
            kind: self.kind,
            size: self.size,
            download_url: clone_opt_string(&self.download_url),
            sha: self.sha.clone(),
        }
    }
}

// ─── Repo metadata ────────────────────────────────────────────────────────────

#[derive(Debug)]
pub struct RepoMeta {
    pub full_name: String,
    pub description: Option<String>,
    pub def_branch: String,
    pub stars: u64,
    pub forks: u64,
    pub private: bool,
    pub language: Option<String>,
}

impl Clone for RepoMeta {
    fn clone(&self) -> (r: Self)
        ensures
            r == *self,
    {
        RepoMeta {
            full_name: self.full_name.clone(),
            description: clone_opt_string(&self.description),
            def_branch: self.def_branch.clone(),
            stars: self.stars,
            forks: self.forks,
            private: self.private,
            language: clone_opt_string(&self.language),
        }
    }
}

// ─── Provider kind (for auto-detect + display) ───────────────────────────────

#[derive(Debug, Clone, Copy, PartialEq, Eq, Structural)]
pub enum ProviderKind {
    GitHub,
    GitLab,
    Codeberg,
    /// self-hosted
    Gitea,
}

/// Provider recognised from the host names occurring in a URL (any letter case).
pub open spec fn detect_spec(url: Seq<char>) -> Option<ProviderKind> {
    let u = lowercase(url);
    if contains(u, "github.com"@) {
        Some(ProviderKind::GitHub)
    } else if contains(u, "gitlab.com"@) {
        Some(ProviderKind::GitLab)
    } else if contains(u, "codeberg.org"@) {
        Some(ProviderKind::Codeberg)
    } else {
        None
    }
}

pub open spec fn label_spec(k: ProviderKind) -> Seq<char> {
    match k {
        ProviderKind::GitHub => "GitHub"@,
        ProviderKind::GitLab => "GitLab"@,
        ProviderKind::Codeberg => "Codeberg"@,
        ProviderKind::Gitea => "Gitea"@,
    }
}

pub open spec fn badge_spec(k: ProviderKind) -> Seq<char> {
    match k {
        ProviderKind::GitHub => "GH"@,
        ProviderKind::GitLab => "GL"@,
        ProviderKind::Codeberg => "CB"@,
        ProviderKind::Gitea => "GT"@,
    }
}

impl ProviderKind {
    pub fn detect(url: &str) -> (r: Option<(Self, Option<String>)>)
        ensures
            match detect_spec(url@) {
                Some(k) => r == Some((k, None::<String>)),
                None => r is None,
            },
    {
        let u = chars_of(to_lower(url).as_str());
        if contains_str(&u, "github.com") {
            return Some((ProviderKind::GitHub, None));
        }
        if contains_str(&u, "gitlab.com") {
            return Some((ProviderKind::GitLab, None));
        }
        if contains_str(&u, "codeberg.org") {
            return Some((ProviderKind::Codeberg, None));
        }
        None
    }

    pub fn label(self) -> (r: &'static str)
        ensures
            r@ == label_spec(self),
    {
        match self {
            ProviderKind::GitHub => "GitHub",
            ProviderKind::GitLab => "GitLab",
            ProviderKind::Codeberg => "Codeberg",
            ProviderKind::Gitea => "Gitea",
        }
    }

    pub fn badge(self) -> (r: &'static str)
        ensures
            r@ == badge_spec(self),
    {
        match self {
            ProviderKind::GitHub => "GH",
            ProviderKind::GitLab => "GL",
            ProviderKind::Codeberg => "CB",
            ProviderKind::Gitea => "GT",
        }
    }
}

// ─── URL parsing ──────────────────────────────────────────────────────────────

/// What follows the first occurrence of `pat` in `s`.
pub open spec fn after_pattern(s: Seq<char>, pat: Seq<char>) -> Option<Seq<char>> {
    let i = find(s, pat);
    if i >= 0 {
        Some(s.subrange(i + pat.len(), s.len() as int))
    } else {
        None
    }
}

/// What follows the host in `s`, trying `https://host`, then `http://host`, then `host`.
pub open spec fn after_host(s: Seq<char>, host: Seq<char>) -> Option<Seq<char>> {
    match after_pattern(s, "https://"@ + host) {
        Some(r) => Some(r),
        None => match after_pattern(s, "http://"@ + host) {
            Some(r) => Some(r),
            None => after_pattern(s, host),
        },
    }
}

/// Owner and repository: the first two non-empty `/`-separated pieces, when there are two.
pub open spec fn owner_repo(rest: Seq<char>) -> Option<(Seq<char>, Seq<char>)> {
    let parts = split_parts(rest, '/');
    if parts.len() >= 2 {
        Some((parts[0], parts[1]))
    } else {
        None
    }
}

pub open spec fn host_match(s: Seq<char>, host: Seq<char>) -> Option<(Seq<char>, Seq<char>)> {
    match after_host(s, host) {
        Some(rest) => owner_repo(rest),
        None => None,
    }
}

/// Result of `parse_url` in terms of character sequences.
pub open spec fn parse_url_spec(input: Seq<char>, gitea_instance: Option<Seq<char>>) -> Option<
    (ProviderKind, Seq<char>, Seq<char>, Option<Seq<char>>),
> {
    let s = trim_end_char(trim(input), '/');
    if let Some((o, r)) = host_match(s, "github.com"@) {
        Some((ProviderKind::GitHub, o, r, None))
    } else if let Some((o, r)) = host_match(s, "gitlab.com"@) {
        Some((ProviderKind::GitLab, o, r, None))
    } else if let Some((o, r)) = host_match(s, "codeberg.org"@) {
        Some((ProviderKind::Codeberg, o, r, None))
    } else if gitea_instance is Some && host_match(
        s,
        trim_end_char(gitea_instance->0, '/'),
    ) is Some {
        let (o, r) = host_match(s, trim_end_char(gitea_instance->0, '/'))->0;
        Some((ProviderKind::Gitea, o, r, Some(trim_end_char(gitea_instance->0, '/'))))
    } else {
        let parts = split_parts(s, '/');
        if parts.len() >= 2 && !parts[0].contains('.') {
            Some((ProviderKind::GitHub, parts[0], parts[1], None))
        } else {
            None
        }
    }
}

fn after_pattern_exec(s: &Vec<char>, pat: &Vec<char>) -> (r: Option<Vec<char>>)
    ensures
        match after_pattern(s@, pat@) {
            Some(x) => r is Some && r->0@ == x,
            None => r is None,
        },
{
    match find_chars(s, pat) {
        Some(i) => {
            proof {
                lemma_find_from_bounds(s@, pat@, 0);
                assert(find_from(s@, pat@, 0) == i as int);
                assert(occurs_at(s@, pat@, i as int));
                assert(i + pat@.len() <= s@.len());
            }
            let plen = pat.len();
            let slen = s.len();
            assert(i + plen <= slen);
            Some(copy_range(s, i + plen, slen))
        },
        None => None,
    }
}

fn prefixed(prefix: &str, host: &Vec<char>) -> (r: Vec<char>)
    ensures
        r@ == prefix@ + host@,
{
    let mut r = chars_of(prefix);
    push_all(&mut r, host);
    r
}

/// What follows the first of `https://host`, `http://host`, `host` found in `s`.
pub fn extract_after_host(s: &Vec<char>, host: &Vec<char>) -> (r: Option<Vec<char>>)
    ensures
        match after_host(s@, host@) {
            Some(x) => r is Some && r->0@ == x,
            None => r is None,
        },
{
    let p1 = prefixed("https://", host);
    if let Some(r) = after_pattern_exec(s, &p1) {
        return Some(r);
    }
    let p2 = prefixed("http://", host);
    if let Some(r) = after_pattern_exec(s, &p2) {
        return Some(r);
    }
    after_pattern_exec(s, host)
}

fn owner_repo_exec(rest: &Vec<char>) -> (r: Option<(Vec<char>, Vec<char>)>)
    ensures
        match owner_repo(rest@) {
            Some((o, p)) => r matches Some((ro, rp)) && ro@ == o && rp@ == p,
            None => r is None,
        },
{
    let parts = split_nonempty(rest, '/');
    if parts.len() >= 2 {
        Some((copy_all(&parts[0]), copy_all(&parts[1])))
    } else {
        None
    }
}

fn host_match_exec(s: &Vec<char>, host: &Vec<char>) -> (r: Option<(Vec<char>, Vec<char>)>)
    ensures
        match host_match(s@, host@) {
            Some((o, p)) => r matches Some((ro, rp)) && ro@ == o && rp@ == p,
            None => r is None,
        },
{
    match extract_after_host(s, host) {
        Some(rest) => owner_repo_exec(&rest),
        None => None,
    }
}

fn host_match_str(s: &Vec<char>, host: &str) -> (r: Option<(Vec<char>, Vec<char>)>)
    ensures
        match host_match(s@, host@) {
            Some((o, p)) => r matches Some((ro, rp)) && ro@ == o && rp@ == p,
            None => r is None,
        },
{
    let h = chars_of(host);
    host_match_exec(s, &h)
}

/// Recognise a repository reference: a URL on GitHub, GitLab, Codeberg or the given
/// Gitea instance, or a bare `owner/repo` (taken as GitHub).
pub fn parse_url(input: &str, gitea_instance: Option<&str>) -> (r: Option<
    (ProviderKind, String, String, Option<String>),
>)
    ensures
        match parse_url_spec(
            input@,
            match gitea_instance {
                Some(g) => Some(g@),
                None => None,
            },
        ) {
            Some((k, o, p, i)) => r matches Some((rk, ro, rp, ri)) && rk == k && ro@ == o && rp@ == p
                && match i {
                Some(iv) => ri matches Some(riv) && riv@ == iv,
                None => ri is None,
            },
            None => r is None,
        },
{
    let raw = chars_of(input);
    let t = trim_chars(&raw);
    let s = trim_end_char_chars(&t, '/');
    if let Some((o, p)) = host_match_str(&s, "github.com") {
        return Some((ProviderKind::GitHub, string_of(o.as_slice()), string_of(p.as_slice()), None));
    }
    if let Some((o, p)) = host_match_str(&s, "gitlab.com") {
        return Some((ProviderKind::GitLab, string_of(o.as_slice()), string_of(p.as_slice()), None));
    }
    if let Some((o, p)) = host_match_str(&s, "codeberg.org") {
        return Some(
            (ProviderKind::Codeberg, string_of(o.as_slice()), string_of(p.as_slice()), None),
        );
    }
    if let Some(inst) = gitea_instance {
        let iv = chars_of(inst);
        let inst_clean = trim_end_char_chars(&iv, '/');
        if let Some((o, p)) = host_match_exec(&s, &inst_clean) {
            return Some(
                (
                    ProviderKind::Gitea,
                    string_of(o.as_slice()),
                    string_of(p.as_slice()),
                    Some(string_of(inst_clean.as_slice())),
                ),
            );
        }
    }
    let parts = split_nonempty(&s, '/');
    if parts.len() >= 2 && !has_char(&parts[0], '.') {
        return Some(
            (
                ProviderKind::GitHub,
                string_of(parts[0].as_slice()),
                string_of(parts[1].as_slice()),
                None,
            ),
        );
    }
    None
}


// ─── Raw-file URLs ────────────────────────────────────────────────────────────

/// Instance base URL used for Gitea when none is configured.
pub open spec fn default_gitea() -> Seq<char> {
    "https://gitea.com"@
}

pub open spec fn opt_view(o: Option<&str>) -> Option<Seq<char>> {
    match o {
        Some(s) => Some(s@),
        None => None,
    }
}

/// URL of the raw contents of `path` on `branch`.
pub open spec fn raw_url_spec(
    kind: ProviderKind,
    instance: Option<Seq<char>>,
    owner: Seq<char>,
    repo: Seq<char>,
    branch: Seq<char>,
    path: Seq<char>,
) -> Seq<char> {
    match kind {
        ProviderKind::GitHub => "https://raw.githubusercontent.com/"@ + owner + "/"@ + repo + "/"@
            + branch + "/"@ + path,
        ProviderKind::GitLab => "https://gitlab.com/"@ + owner + "/"@ + repo + "/-/raw/"@ + branch
            + "/"@ + path,
        ProviderKind::Codeberg => "https://codeberg.org/"@ + owner + "/"@ + repo
            + "/raw/branch/"@ + branch + "/"@ + path,
        ProviderKind::Gitea => {
            let base = match instance {
                Some(i) => i,
                None => default_gitea(),
            };
            base + "/"@ + owner + "/"@ + repo + "/raw/branch/"@ + branch + "/"@ + path
        },
    }
}

pub fn raw_url(
    kind: ProviderKind,
    instance: Option<&str>,
    owner: &str,
    repo: &str,
    branch: &str,
    path: &str,
) -> (r: String)
    ensures
        r@ == raw_url_spec(kind, opt_view(instance), owner@, repo@, branch@, path@),
{
    let mut v: Vec<char> = Vec::new();
    match kind {
        ProviderKind::GitHub => {
            push_str(&mut v, "https://raw.githubusercontent.com/");
            push_str(&mut v, owner);
            push_str(&mut v, "/");
            push_str(&mut v, repo);
            push_str(&mut v, "/");
        },
        ProviderKind::GitLab => {
            push_str(&mut v, "https://gitlab.com/");
            push_str(&mut v, owner);
            push_str(&mut v, "/");
            push_str(&mut v, repo);
            push_str(&mut v, "/-/raw/");
        },
        ProviderKind::Codeberg => {
            push_str(&mut v, "https://codeberg.org/");
            push_str(&mut v, owner);
            push_str(&mut v, "/");
            push_str(&mut v, repo);
            push_str(&mut v, "/raw/branch/");
        },
        ProviderKind::Gitea => {
            match instance {
                Some(i) => push_str(&mut v, i),
                None => push_str(&mut v, "https://gitea.com"),
            }
            push_str(&mut v, "/");
            push_str(&mut v, owner);
            push_str(&mut v, "/");
            push_str(&mut v, repo);
            push_str(&mut v, "/raw/branch/");
        },
    }
    push_str(&mut v, branch);
    push_str(&mut v, "/");
    push_str(&mut v, path);
    proof {
        let sp = raw_url_spec(kind, opt_view(instance), owner@, repo@, branch@, path@);
        assert(v@ =~= sp);
    }
    string_of(v.as_slice())
}

// ─── File names ───────────────────────────────────────────────────────────────

/// The extension of a file name: what follows its last `.` (the whole name without one).
pub fn file_ext(name: &str) -> (r: &str)
    ensures
        r@ == after_last(name@, '.'),
{
    let v = chars_of(name);
    let lo = after_last_start(&v, '.');
    name.substring_char(lo, v.len())
}

/// Lowercase extensions of files whose contents are not shown as text.
pub open spec fn binary_ext(e: Seq<char>) -> bool {
    e == "png"@ || e == "jpg"@ || e == "jpeg"@ || e == "gif"@ || e == "webp"@ || e == "bmp"@ || e
        == "ico"@ || e == "pdf"@ || e == "zip"@ || e == "tar"@ || e == "gz"@ || e == "bz2"@ || e
        == "xz"@ || e == "7z"@ || e == "rar"@ || e == "exe"@ || e == "bin"@ || e == "wasm"@ || e
        == "so"@ || e == "dylib"@ || e == "dll"@ || e == "a"@ || e == "o"@ || e == "ttf"@ || e
        == "otf"@ || e == "woff"@ || e == "woff2"@ || e == "mp4"@ || e == "mov"@ || e == "avi"@
        || e == "mkv"@ || e == "webm"@ || e == "mp3"@ || e == "wav"@ || e == "ogg"@ || e
        == "flac"@ || e == "aac"@ || e == "db"@ || e == "sqlite"@ || e == "sqlite3"@
}

pub fn binary_ext_exec(e: &Vec<char>) -> (r: bool)
    ensures
        r == binary_ext(e@),
{
    chars_eq_str(e, "png") || chars_eq_str(e, "jpg") || chars_eq_str(e, "jpeg") || chars_eq_str(
        e,
        "gif",
    ) || chars_eq_str(e, "webp") || chars_eq_str(e, "bmp") || chars_eq_str(e, "ico")
        || chars_eq_str(e, "pdf") || chars_eq_str(e, "zip") || chars_eq_str(e, "tar")
        || chars_eq_str(e, "gz") || chars_eq_str(e, "bz2") || chars_eq_str(e, "xz")
        || chars_eq_str(e, "7z") || chars_eq_str(e, "rar") || chars_eq_str(e, "exe")
        || chars_eq_str(e, "bin") || chars_eq_str(e, "wasm") || chars_eq_str(e, "so")
        || chars_eq_str(e, "dylib") || chars_eq_str(e, "dll") || chars_eq_str(e, "a")
        || chars_eq_str(e, "o") || chars_eq_str(e, "ttf") || chars_eq_str(e, "otf")
        || chars_eq_str(e, "woff") || chars_eq_str(e, "woff2") || chars_eq_str(e, "mp4")
        || chars_eq_str(e, "mov") || chars_eq_str(e, "avi") || chars_eq_str(e, "mkv")
        || chars_eq_str(e, "webm") || chars_eq_str(e, "mp3") || chars_eq_str(e, "wav")
        || chars_eq_str(e, "ogg") || chars_eq_str(e, "flac") || chars_eq_str(e, "aac")
        || chars_eq_str(e, "db") || chars_eq_str(e, "sqlite") || chars_eq_str(e, "sqlite3")
}

/// The lowercased extension of `name` names a binary format.
pub open spec fn is_binary_name(name: Seq<char>) -> bool {
    binary_ext(lowercase(after_last(name, '.')))
}

pub fn is_binary_ext(name: &str) -> (r: bool)
    ensures
        r == is_binary_name(name@),
{
    let v = chars_of(name);
    let e = after_last_chars(&v, '.');
    let l = lower_chars(&e);
    binary_ext_exec(&l)
}

// ─── Listing order ────────────────────────────────────────────────────────────

/// Directories first, then by lowercased name.
pub open spec fn node_key(n: Node) -> KeyV {
    (
        if n.kind == NodeKind::Dir {
            0u64
        } else {
            1u64
        },
        lowercase(n.name@),
        Seq::<char>::empty(),
    )
}

pub open spec fn node_keys(s: Seq<Node>) -> Seq<KeyV> {
    s.map_values(|n: Node| node_key(n))
}

/// `new` holds the elements of `old` in the order `ord`.
pub open spec fn permuted<T>(old: Seq<T>, new: Seq<T>, ord: Seq<usize>) -> bool {
    new.len() == ord.len() && forall|k: int| 0 <= k < new.len() ==> #[trigger] new[k] == old[ord[k] as int]
}

/// `new` is `old` stably sorted, directories first and then by lowercased name.
pub open spec fn sorted_listing(old: Seq<Node>, new: Seq<Node>) -> bool {
    exists|ord: Seq<usize>| is_stable_order(node_keys(old), ord) && permuted(old, new, ord)
}

pub fn node_sort_key(n: &Node) -> (k: SortKey)
    ensures
        k@ == node_key(*n),
{
    let rank: u64 = match n.kind {
        NodeKind::Dir => 0,
        NodeKind::File => 1,
    };
    let name = chars_of(n.name.as_str());
    SortKey { rank, primary: lower_chars(&name), secondary: Vec::new() }
}

/// Stable sort: directories before files, each group by lowercased name.
pub fn sort_nodes(nodes: &mut Vec<Node>)
    ensures
        sorted_listing(old(nodes)@, final(nodes)@),
{
    let mut keys: Vec<SortKey> = Vec::new();
    let mut i: usize = 0;
    while i < nodes.len()
        invariant
            i <= nodes.len(),
            keys.len() == i,
            forall|j: int| 0 <= j < i ==> #[trigger] keys[j]@ == node_key(nodes[j]),
        decreases nodes.len() - i,
    {
        keys.push(node_sort_key(&nodes[i]));
        i += 1;
    }
    let ord = stable_order(&keys);
    proof {
        assert(keys@.map_values(|k: SortKey| k@) =~= node_keys(nodes@));
    }
    let mut out: Vec<Node> = Vec::new();
    let mut k: usize = 0;
    while k < ord.len()
        invariant
            k <= ord.len(),
            ord.len() == nodes.len(),
            forall|j: int| 0 <= j < ord.len() ==> #[trigger] ord@[j] < nodes.len(),
            out.len() == k,
            forall|j: int| 0 <= j < k ==> #[trigger] out@[j] == nodes@[ord@[j] as int],
        decreases ord.len() - k,
    {
        out.push(nodes[ord[k]].clone());
        k += 1;
    }
    proof {
        assert(permuted(old(nodes)@, out@, ord@));
    }
    *nodes = out;
}

// ─── API endpoints ────────────────────────────────────────────────────────────

/// Base URL of the provider's REST API.
pub open spec fn api_base_spec(kind: ProviderKind, instance: Option<Seq<char>>) -> Seq<char> {
    match kind {
        ProviderKind::GitHub => "https://api.github.com"@,
        ProviderKind::GitLab => "https://gitlab.com/api/v4"@,
        ProviderKind::Codeberg => "https://codeberg.org/api/v1"@,
        ProviderKind::Gitea => trim_end_char(
            match instance {
                Some(i) => i,
                None => default_gitea(),
            },
            '/',
        ) + "/api/v1"@,
    }
}

pub fn api_base_url(kind: ProviderKind, instance: Option<&str>) -> (r: String)
    ensures
        r@ == api_base_spec(kind, opt_view(instance)),
{
    match kind {
        ProviderKind::GitHub => string_of(chars_of("https://api.github.com").as_slice()),
        ProviderKind::GitLab => string_of(chars_of("https://gitlab.com/api/v4").as_slice()),
        ProviderKind::Codeberg => string_of(chars_of("https://codeberg.org/api/v1").as_slice()),
        ProviderKind::Gitea => {
            let inst = match instance {
                Some(i) => chars_of(i),
                None => chars_of("https://gitea.com"),
            };
            let mut v = trim_end_char_chars(&inst, '/');
            push_str(&mut v, "/api/v1");
            string_of(v.as_slice())
        },
    }
}

/// `Authorization` header value for a token.
pub open spec fn auth_header_spec(kind: ProviderKind, token: Option<Seq<char>>) -> Option<Seq<char>> {
    match token {
        Some(t) => Some(
            match kind {
                ProviderKind::GitLab => "Bearer "@ + t,
                _ => "token "@ + t,
            },
        ),
        None => None,
    }
}

pub fn auth_header(kind: ProviderKind, token: Option<&str>) -> (r: Option<String>)
    ensures
        match auth_header_spec(kind, opt_view(token)) {
            Some(h) => r matches Some(x) && x@ == h,
            None => r is None,
        },
{
    match token {
        Some(t) => {
            let mut v = match kind {
                ProviderKind::GitLab => chars_of("Bearer "),
                _ => chars_of("token "),
            };
            push_str(&mut v, t);
            Some(string_of(v.as_slice()))
        },
        None => None,
    }
}

/// GitLab project id: `owner%2Frepo`.
pub open spec fn gl_id(owner: Seq<char>, repo: Seq<char>) -> Seq<char> {
    owner + "%2F"@ + repo
}

/// GitLab's id for project `owner/repo`.
pub fn gl_encode(owner: &str, repo: &str) -> (r: String)
    ensures
        r@ == gl_id(owner@, repo@),
{
    let mut v = chars_of(owner);
    push_str(&mut v, "%2F");
    push_str(&mut v, repo);
    string_of(v.as_slice())
}

/// Every `/` replaced by `%2F`.
pub open spec fn urlenc_spec(s: Seq<char>) -> Seq<char>
    decreases s.len(),
{
    if s.len() == 0 {
        s
    } else {
        urlenc_spec(s.drop_last()) + if s.last() == '/' {
            "%2F"@
        } else {
            seq![s.last()]
        }
    }
}

/// `s` with every `/` written as `%2F`.
pub fn urlenc(s: &str) -> (r: String)
    ensures
        r@ == urlenc_spec(s@),
{
    let v = chars_of(s);
    let mut r: Vec<char> = Vec::new();
    let mut i: usize = 0;
    while i < v.len()
        invariant
            i <= v.len(),
            v@ == s@,
            r@ == urlenc_spec(v@.subrange(0, i as int)),
        decreases v.len() - i,
    {
        assert(v@.subrange(0, i + 1).drop_last() =~= v@.subrange(0, i as int));
        if v[i] == '/' {
            push_str(&mut r, "%2F");
        } else {
            r.push(v[i]);
        }
        i += 1;
        assert(r@ =~= urlenc_spec(v@.subrange(0, i as int)));
    }
    assert(v@.subrange(0, v@.len() as int) =~= v@);
    string_of(r.as_slice())
}

/// Endpoint of repository metadata.
pub open spec fn repo_api_spec(kind: ProviderKind, base: Seq<char>, owner: Seq<char>, repo: Seq<char>) -> Seq<char> {
    match kind {
        ProviderKind::GitLab => base + "/projects/"@ + gl_id(owner, repo),
        _ => base + "/repos/"@ + owner + "/"@ + repo,
    }
}

pub fn repo_api_url(kind: ProviderKind, base: &str, owner: &str, repo: &str) -> (r: String)
    ensures
        r@ == repo_api_spec(kind, base@, owner@, repo@),
{
    let mut v = chars_of(base);
    match kind {
        ProviderKind::GitLab => {
            push_str(&mut v, "/projects/");
            let id = gl_encode(owner, repo);
            push_str(&mut v, id.as_str());
        },
        _ => {
            push_str(&mut v, "/repos/");
            push_str(&mut v, owner);
            push_str(&mut v, "/");
            push_str(&mut v, repo);
        },
    }
    proof {
        assert(v@ =~= repo_api_spec(kind, base@, owner@, repo@));
    }
    string_of(v.as_slice())
}

/// Endpoint listing the entries of directory `path` on `branch`.
pub open spec fn contents_api_spec(
    kind: ProviderKind,
    base: Seq<char>,
    owner: Seq<char>,
    repo: Seq<char>,
    path: Seq<char>,
    branch: Seq<char>,
) -> Seq<char> {
    match kind {
        ProviderKind::GitLab => base + "/projects/"@ + gl_id(owner, repo)
            + "/repository/tree?ref="@ + branch + "&per_page=100"@ + if path.len() == 0 {
            Seq::<char>::empty()
        } else {
            "&path="@ + path
        },
        _ => base + "/repos/"@ + owner + "/"@ + repo + "/contents/"@ + path + "?ref="@ + branch,
    }
}

pub fn contents_api_url(
    kind: ProviderKind,
    base: &str,
    owner: &str,
    repo: &str,
    path: &str,
    branch: &str,
) -> (r: String)
    ensures
        r@ == contents_api_spec(kind, base@, owner@, repo@, path@, branch@),
{
    let mut v = chars_of(base);
    match kind {
        ProviderKind::GitLab => {
            push_str(&mut v, "/projects/");
            let id = gl_encode(owner, repo);
            push_str(&mut v, id.as_str());
            push_str(&mut v, "/repository/tree?ref=");
            push_str(&mut v, branch);
            push_str(&mut v, "&per_page=100");
            if !path.is_empty() {
                push_str(&mut v, "&path=");
                push_str(&mut v, path);
            }
        },
        _ => {
            push_str(&mut v, "/repos/");
            push_str(&mut v, owner);
            push_str(&mut v, "/");
            push_str(&mut v, repo);
            push_str(&mut v, "/contents/");
            push_str(&mut v, path);
            push_str(&mut v, "?ref=");
            push_str(&mut v, branch);
        },
    }
    proof {
        assert(v@ =~= contents_api_spec(kind, base@, owner@, repo@, path@, branch@));
    }
    string_of(v.as_slice())
}

/// Endpoint listing branches.
pub open spec fn branches_api_spec(kind: ProviderKind, base: Seq<char>, owner: Seq<char>, repo: Seq<char>) -> Seq<char> {
    match kind {
        ProviderKind::GitHub => base + "/repos/"@ + owner + "/"@ + repo + "/branches?per_page=100"@,
        ProviderKind::GitLab => base + "/projects/"@ + gl_id(owner, repo)
            + "/repository/branches?per_page=100"@,
        _ => base + "/repos/"@ + owner + "/"@ + repo + "/branches?limit=100"@,
    }
}

pub fn branches_api_url(kind: ProviderKind, base: &str, owner: &str, repo: &str) -> (r: String)
    ensures
        r@ == branches_api_spec(kind, base@, owner@, repo@),
{
    let mut v = chars_of(base);
    match kind {
        ProviderKind::GitLab => {
            push_str(&mut v, "/projects/");
            let id = gl_encode(owner, repo);
            push_str(&mut v, id.as_str());
            push_str(&mut v, "/repository/branches?per_page=100");
        },
        ProviderKind::GitHub => {
            push_str(&mut v, "/repos/");
            push_str(&mut v, owner);
            push_str(&mut v, "/");
            push_str(&mut v, repo);
            push_str(&mut v, "/branches?per_page=100");
        },
        _ => {
            push_str(&mut v, "/repos/");
            push_str(&mut v, owner);
            push_str(&mut v, "/");
            push_str(&mut v, repo);
            push_str(&mut v, "/branches?limit=100");
        },
    }
    proof {
        assert(v@ =~= branches_api_spec(kind, base@, owner@, repo@));
    }
    string_of(v.as_slice())
}

/// GitLab endpoint of the raw contents of a file.
pub open spec fn gitlab_file_spec(
    base: Seq<char>,
    owner: Seq<char>,
    repo: Seq<char>,
    path: Seq<char>,
    branch: Seq<char>,
) -> Seq<char> {
    base + "/projects/"@ + gl_id(owner, repo) + "/repository/files/"@ + urlenc_spec(path)
        + "/raw?ref="@ + branch
}

pub fn gitlab_file_url(base: &str, owner: &str, repo: &str, path: &str, branch: &str) -> (r: String)
    ensures
        r@ == gitlab_file_spec(base@, owner@, repo@, path@, branch@),
{
    let mut v = chars_of(base);
    push_str(&mut v, "/projects/");
    let id = gl_encode(owner, repo);
    push_str(&mut v, id.as_str());
    push_str(&mut v, "/repository/files/");
    let e = urlenc(path);
    push_str(&mut v, e.as_str());
    push_str(&mut v, "/raw?ref=");
    push_str(&mut v, branch);
    proof {
        assert(v@ =~= gitlab_file_spec(base@, owner@, repo@, path@, branch@));
    }
    string_of(v.as_slice())
}

// ─── Listing entries as the APIs report them ──────────────────────────────────

/// One entry of a directory listing, with the fields the APIs report.
pub struct RawEntry {
    pub name: String,
    pub path: String,
    /// `"dir"` / `"file"` (GitHub, Gitea) or `"tree"` / `"blob"` (GitLab)
    pub kind: String,
    pub size: Option<u64>,
    pub download_url: Option<String>,
    /// object id (`sha` or GitLab `id`)
    pub sha: String,
}

/// GitHub / Gitea entry as a node: `"dir"` entries are directories, all others files.
pub open spec fn entry_node(e: RawEntry) -> Node {
    Node {
        name: e.name,
        path: e.path,
        kind: if e.kind@ == "dir"@ {
            NodeKind::Dir
        } else {
            NodeKind::File
        },
        size: e.size,
        download_url: e.download_url,
        sha: e.sha,
    }
}

pub fn entry_to_node(e: &RawEntry) -> (n: Node)
    ensures
        n == entry_node(*e),
{
    let k = chars_of(e.kind.as_str());
    let kind = if chars_eq_str(&k, "dir") {
        NodeKind::Dir
    } else {
        NodeKind::File
    };
    Node {
        name: e.name.clone(),
        path: e.path.clone(),
        kind,
        size: e.size,
        download_url: clone_opt_string(&e.download_url),
        sha: e.sha.clone(),
    }
}

/// The nodes of GitHub / Gitea entries, in listing order.
pub fn nodes_from_entries(entries: &Vec<RawEntry>) -> (r: Vec<Node>)
    ensures
        sorted_listing(entries@.map_values(|e: RawEntry| entry_node(e)), r@),
{
    let mut nodes: Vec<Node> = Vec::new();
    let mut i: usize = 0;
    while i < entries.len()
        invariant
            i <= entries.len(),
            nodes@ == entries@.subrange(0, i as int).map_values(|e: RawEntry| entry_node(e)),
        decreases entries.len() - i,
    {
        let n = entry_to_node(&entries[i]);
        nodes.push(n);
        i += 1;
        assert(nodes@ =~= entries@.subrange(0, i as int).map_values(|e: RawEntry| entry_node(e)));
    }
    assert(entries@.subrange(0, entries@.len() as int) =~= entries@);
    sort_nodes(&mut nodes);
    nodes
}

/// GitLab tree entry as a node: `"tree"` entries are directories; files get the raw-file
/// endpoint as download URL; sizes are not reported.
pub open spec fn gitlab_entry_node(
    base: Seq<char>,
    owner: Seq<char>,
    repo: Seq<char>,
    branch: Seq<char>,
    e: RawEntry,
) -> (Seq<char>, Seq<char>, NodeKind, Option<u64>, Option<Seq<char>>, Seq<char>) {
    let is_dir = e.kind@ == "tree"@;
    (
        e.name@,
        e.path@,
        if is_dir {
            NodeKind::Dir
        } else {
            NodeKind::File
        },
        None,
        if is_dir {
            None
        } else {
            Some(gitlab_file_spec(base, owner, repo, e.path@, branch))
        },
        e.sha@,
    )
}

pub open spec fn node_fields(n: Node) -> (Seq<char>, Seq<char>, NodeKind, Option<u64>, Option<Seq<char>>, Seq<char>) {
    (
        n.name@,
        n.path@,
        n.kind,
        n.size,
        match n.download_url {
            Some(u) => Some(u@),
            None => None,
        },
        n.sha@,
    )
}

fn gitlab_to_node(base: &str, owner: &str, repo: &str, branch: &str, e: &RawEntry) -> (n: Node)
    ensures
        node_fields(n) == gitlab_entry_node(base@, owner@, repo@, branch@, *e),
{
    let k = chars_of(e.kind.as_str());
    let is_dir = chars_eq_str(&k, "tree");
    let dl = if is_dir {
        None
    } else {
        Some(gitlab_file_url(base, owner, repo, e.path.as_str(), branch))
    };
    Node {
        name: e.name.clone(),
        path: e.path.clone(),
        kind: if is_dir {
            NodeKind::Dir
        } else {
            NodeKind::File
        },
        size: None,
        download_url: dl,
        sha: e.sha.clone(),
    }
}

/// The nodes of GitLab tree entries, in listing order.
pub fn gitlab_nodes(base: &str, owner: &str, repo: &str, branch: &str, entries: &Vec<RawEntry>) -> (r: Vec<Node>)
    ensures
        exists|conv: Seq<Node>|
            conv.len() == entries.len() && (forall|j: int|
                0 <= j < conv.len() ==> node_fields(#[trigger] conv[j]) == gitlab_entry_node(
                    base@,
                    owner@,
                    repo@,
                    branch@,
                    entries@[j],
                )) && sorted_listing(conv, r@),
{
    let mut nodes: Vec<Node> = Vec::new();
    let mut i: usize = 0;
    while i < entries.len()
        invariant
            i <= entries.len(),
            nodes.len() == i,
            forall|j: int|
                0 <= j < i ==> node_fields(#[trigger] nodes@[j]) == gitlab_entry_node(
                    base@,
                    owner@,
                    repo@,
                    branch@,
                    entries@[j],
                ),
        decreases entries.len() - i,
    {
        let n = gitlab_to_node(base, owner, repo, branch, &entries[i]);
        nodes.push(n);
        i += 1;
    }
    let ghost conv = nodes@;
    sort_nodes(&mut nodes);
    nodes
}

/// GitLab project metadata: the default branch falls back to `main`, privacy comes from
/// the visibility level, and no language is reported.
pub fn gitlab_repo_meta(
    name_with_namespace: String,
    description: Option<String>,
    default_branch: Option<String>,
    star_count: u64,
    forks_count: u64,
    visibility: &str,
) -> (r: RepoMeta)
    ensures
        r.full_name == name_with_namespace,
        r.description == description,
        r.def_branch@ == match default_branch {
            Some(b) => b@,
            None => "main"@,
        },
        r.stars == star_count,
        r.forks == forks_count,
        r.private == (visibility@ == "private"@),
        r.language is None,
{
    let vis = chars_of(visibility);
    let private = chars_eq_str(&vis, "private");
    let def_branch = match default_branch {
        Some(b) => b,
        None => string_of(chars_of("main").as_slice()),
    };
    RepoMeta {
        full_name: name_with_namespace,
        description,
        def_branch,
        stars: star_count,
        forks: forks_count,
        private,
        language: None,
    }
}

// ─── API errors ───────────────────────────────────────────────────────────────

/// Name for the string value of the top-level `"message"` field of a JSON document,
/// as `serde_json` reads it (none when the text is not JSON or the field is not a string).
pub uninterp spec fn json_message(text: Seq<char>) -> Option<Seq<char>>;

/// `serde_json::from_str::<serde_json::Value>` followed by `["message"].as_str()`.
#[verifier::external_body]
pub(crate) fn json_message_field(text: &str) -> (r: Option<String>)
    ensures
        match json_message(text@) {
            Some(m) => r matches Some(x) && x@ == m,
            None => r is None,
        },
{
    serde_json::from_str::<serde_json::Value>(text).ok().and_then(
        |v| v["message"].as_str().map(|s| s.to_string()),
    )
}

/// Error text for an unsuccessful API response: the JSON `message` of the body, or
/// `HTTP <status>`, followed by ` (HTTP <status>)`.
pub open spec fn api_error_spec(status: u16, body: Seq<char>) -> Seq<char> {
    let code = decimal(status as nat);
    let msg = match json_message(body) {
        Some(m) => m,
        None => "HTTP "@ + code,
    };
    msg + " (HTTP "@ + code + ")"@
}

pub fn api_error_message(status: u16, body: &str) -> (r: String)
    ensures
        r@ == api_error_spec(status, body@),
{
    let code = decimal_chars(status as u64);
    let mut v = match json_message_field(body) {
        Some(m) => chars_of(m.as_str()),
        None => {
            let mut h = chars_of("HTTP ");
            push_all(&mut h, &code);
            h
        },
    };
    push_str(&mut v, " (HTTP ");
    push_all(&mut v, &code);
    push_str(&mut v, ")");
    string_of(v.as_slice())
}

} // verus!
