//! GitHub-only helpers and the shapes of GitHub API records.
use vstd::prelude::*;
use crate::text::{chars_of, string_of, copy_all, starts_with, starts_with_chars, copy_range, trim,
    trim_chars, trim_end_char, trim_end_char_chars, split_parts, split_nonempty, decimal,
    decimal_chars, push_all, push_str};
use crate::providers::{self, ProviderKind, json_message, json_message_field, raw_url_spec,
    is_binary_name};

verus! {

// ─── API types ────────────────────────────────────────────────────────────────

pub struct RepoInfo {
    pub full_name: String,
    pub description: Option<String>,
    pub default_branch: String,
    pub stargazers_count: u64,
    pub forks_count: u64,
    pub private: bool,
    pub language: Option<String>,
}

pub struct GhItem {
    pub name: String,
    pub path: String,
    /// "file" | "dir"
    pub kind: String,
    pub size: Option<u64>,
    pub download_url: Option<String>,
    pub sha: String,
}

pub struct CommitInfo {
    pub sha: String,
    pub commit: CommitDetail,
}

pub struct CommitDetail {
    pub message: String,
    pub author: CommitAuthor,
}

pub struct CommitAuthor {
    pub name: String,
    pub date: String,
}

// ─── Helpers ─────────────────────────────────────────────────────────────────

/// `s` without the first of the given prefixes that it starts with.
pub open spec fn strip_github(s: Seq<char>) -> Seq<char> {
    if starts_with(s, "https://github.com/"@) {
        s.subrange(19, s.len() as int)
    } else if starts_with(s, "http://github.com/"@) {
        s.subrange(18, s.len() as int)
    } else if starts_with(s, "github.com/"@) {
        s.subrange(11, s.len() as int)
    } else {
        s
    }
}

/// Owner and repository of a GitHub URL or an `owner/repo` reference.
pub open spec fn parse_url_spec(input: Seq<char>) -> Option<(Seq<char>, Seq<char>)> {
    let s = strip_github(trim_end_char(trim(input), '/'));
    let parts = split_parts(s, '/');
    if parts.len() >= 2 {
        Some((parts[0], parts[1]))
    } else {
        None
    }
}

fn strip_prefix_str(s: &Vec<char>, p: &str) -> (r: Option<Vec<char>>)
    ensures
        match r {
            Some(x) => starts_with(s@, p@) && x@ == s@.subrange(p@.len() as int, s@.len() as int),
            None => !starts_with(s@, p@),
        },
{
    let pv = chars_of(p);
    if starts_with_chars(s, &pv) {
        Some(copy_range(s, pv.len(), s.len()))
    } else {
        None
    }
}

pub fn parse_url(input: &str) -> (r: Option<(String, String)>)
    ensures
        match parse_url_spec(input@) {
            Some((o, p)) => r matches Some((ro, rp)) && ro@ == o && rp@ == p,
            None => r is None,
        },
{
    proof {
        reveal_strlit("https://github.com/");
        reveal_strlit("http://github.com/");
        reveal_strlit("github.com/");
    }
    let raw = chars_of(input);
    let t = trim_chars(&raw);
    let s0 = trim_end_char_chars(&t, '/');
    let s = match strip_prefix_str(&s0, "https://github.com/") {
        Some(x) => x,
        None => match strip_prefix_str(&s0, "http://github.com/") {
            Some(x) => x,
            None => match strip_prefix_str(&s0, "github.com/") {
                Some(x) => x,
                None => copy_all(&s0),
            },
        },
    };
    let parts = split_nonempty(&s, '/');
    if parts.len() >= 2 {
        Some((string_of(parts[0].as_slice()), string_of(parts[1].as_slice())))
    } else {
        None
    }
}

pub fn raw_url(owner: &str, repo: &str, branch: &str, path: &str) -> (r: String)
    ensures
        r@ == raw_url_spec(ProviderKind::GitHub, None, owner@, repo@, branch@, path@),
{
    providers::raw_url(ProviderKind::GitHub, None, owner, repo, branch, path)
}

pub fn is_binary_ext(name: &str) -> (r: bool)
    ensures
        r == is_binary_name(name@),
{
    providers::is_binary_ext(name)
}

/// Error text for an unsuccessful GitHub response: the JSON `message` of the body
/// (`unknown error` without one), followed by ` (HTTP <status>)`.
pub open spec fn error_spec(status: u16, body: Seq<char>) -> Seq<char> {
    let msg = match json_message(body) {
        Some(m) => m,
        None => "unknown error"@,
    };
    msg + " (HTTP "@ + decimal(status as nat) + ")"@
}

pub fn error_message(status: u16, body: &str) -> (r: String)
    ensures
        r@ == error_spec(status, body@),
{
    let mut v = match json_message_field(body) {
        Some(m) => chars_of(m.as_str()),
        None => chars_of("unknown error"),
    };
    push_str(&mut v, " (HTTP ");
    let code = decimal_chars(status as u64);
    push_all(&mut v, &code);
    push_str(&mut v, ")");
    string_of(v.as_slice())
}

} // verus!
