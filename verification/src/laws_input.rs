//! What typed input means: repository addresses, history suggestions and the command line.
use vstd::prelude::*;
use crate::app::App;
use crate::app_complete::{autocomplete_rel, cand_matches, hist_sugg, prefix_sugg, suggestions_for, string_views, url_prefixes};
use crate::cli::{Command, command_spec, scan_args};
use crate::app_keys::opt_sv;
use crate::config::HistoryEntry;
use crate::providers::{ProviderKind, parse_url_spec, host_match, after_host, owner_repo};
use crate::text::{
    lowercase, trim, trim_start, trim_end_char, is_ws, find, contains, occurs_at, starts_with, split_parts,
    split_from, lemma_find_from_bounds, lemma_next_sep, lemma_next_sep_at,
};

verus! {

// ─── Addresses ────────────────────────────────────────────────────────────────

/// A non-empty name without `/`.
pub open spec fn slash_free(x: Seq<char>) -> bool {
    x.len() > 0 && forall|i: int| 0 <= i < x.len() ==> x[i] != '/'
}

proof fn lemma_no_double_slash(addr: Seq<char>, p: Seq<char>, at: int)
    requires
        forall|j: int| 0 <= j < addr.len() - 1 ==> !(#[trigger] addr[j] == '/' && addr[j + 1] == '/'),
        0 <= at < p.len() - 1,
        p[at] == '/' && p[at + 1] == '/',
    ensures
        find(addr, p) < 0,
{
    lemma_find_from_bounds(addr, p, 0);
    let i = find(addr, p);
    if i >= 0 {
        assert(addr.subrange(i, i + p.len()) == p);
        assert(addr[i + at] == p[at]);
        assert(addr[i + at + 1] == p[at + 1]);
    }
}

/// `/owner/repo` splits into the owner and the repository.
proof fn lemma_rest_parts(o: Seq<char>, r: Seq<char>)
    requires
        slash_free(o),
        slash_free(r),
    ensures
        owner_repo("/"@ + o + "/"@ + r) == Some((o, r)),
{
    reveal_strlit("/");
    let rest = "/"@ + o + "/"@ + r;
    let m = o.len() as int;
    lemma_next_sep_at(rest, '/', 0, 0);
    lemma_next_sep_at(rest, '/', 1, 1 + m);
    lemma_next_sep_at(rest, '/', 2 + m, rest.len() as int);
    lemma_next_sep(rest, '/', 0);
    lemma_next_sep(rest, '/', 1);
    lemma_next_sep(rest, '/', 2 + m);
    let tail = split_from(rest, '/', 2 + m);
    assert(rest.subrange(2 + m, rest.len() as int) =~= r);
    assert(tail == seq![r]) by {
        assert(split_from(rest, '/', 2 + m) == seq![r] + Seq::<Seq<char>>::empty());
    }
    assert(rest.subrange(1, 1 + m) =~= o);
    assert(split_from(rest, '/', 1) == seq![o] + tail);
    assert(split_from(rest, '/', 0) == split_from(rest, '/', 1));
    assert(split_parts(rest, '/') =~= seq![o, r]);
}

/// The address `host/owner/repo` names `owner` and `repo` on `host`, and is already trimmed.
proof fn lemma_bare_address(host: Seq<char>, o: Seq<char>, r: Seq<char>)
    requires
        slash_free(host),
        slash_free(o),
        slash_free(r),
        !is_ws(host[0]),
        !is_ws(r.last()),
    ensures
        trim_end_char(trim(host + "/"@ + o + "/"@ + r), '/') == host + "/"@ + o + "/"@ + r,
        host_match(host + "/"@ + o + "/"@ + r, host) == Some((o, r)),
{
    reveal_strlit("/");
    reveal_strlit("https://");
    reveal_strlit("http://");
    let addr = host + "/"@ + o + "/"@ + r;
    let n = addr.len() as int;
    let h = host.len() as int;
    let m = o.len() as int;
    assert(addr[0] == host[0]);
    assert(addr[n - 1] == r.last());
    assert(trim_start(addr) == addr);
    assert(trim(addr) == addr);
    assert(trim_end_char(addr, '/') == addr);
    assert forall|j: int| 0 <= j < n - 1 implies !(#[trigger] addr[j] == '/' && addr[j + 1] == '/') by {
        if addr[j] == '/' {
            assert(j == h || j == h + 1 + m);
        }
    }
    lemma_no_double_slash(addr, "https://"@ + host, 6);
    lemma_no_double_slash(addr, "http://"@ + host, 5);
    assert(occurs_at(addr, host, 0)) by {
        assert(addr.subrange(0, h) =~= host);
    }
    assert(find(addr, host) == 0);
    let rest = addr.subrange(h, n);
    assert(rest =~= "/"@ + o + "/"@ + r);
    assert(after_host(addr, host) == Some(rest));
    lemma_rest_parts(o, r);
}

/// The address `https://host/owner/repo` names `owner` and `repo` on `host`, and is already
/// trimmed.
proof fn lemma_https_address(host: Seq<char>, o: Seq<char>, r: Seq<char>)
    requires
        slash_free(o),
        slash_free(r),
        !is_ws(r.last()),
    ensures
        trim_end_char(trim("https://"@ + host + "/"@ + o + "/"@ + r), '/') == "https://"@ + host + "/"@ + o
            + "/"@ + r,
        host_match("https://"@ + host + "/"@ + o + "/"@ + r, host) == Some((o, r)),
{
    reveal_strlit("/");
    reveal_strlit("https://");
    let p = "https://"@ + host;
    let addr = p + "/"@ + o + "/"@ + r;
    let n = addr.len() as int;
    let h = p.len() as int;
    assert(addr[0] == 'h');
    assert(!is_ws('h'));
    assert(addr[n - 1] == r.last());
    assert(trim_start(addr) == addr);
    assert(trim(addr) == addr);
    assert(trim_end_char(addr, '/') == addr);
    assert(occurs_at(addr, p, 0)) by {
        assert(addr.subrange(0, h) =~= p);
    }
    assert(find(addr, p) == 0);
    let rest = addr.subrange(h, n);
    assert(rest =~= "/"@ + o + "/"@ + r);
    assert(after_host(addr, host) == Some(rest));
    lemma_rest_parts(o, r);
}

/// A text without `p` has no occurrence of anything that ends with `p`.
proof fn lemma_absent_longer(x: Seq<char>, pre: Seq<char>, p: Seq<char>)
    requires
        !contains(x, p),
    ensures
        find(x, pre + p) < 0,
{
    lemma_find_from_bounds(x, p, 0);
    lemma_find_from_bounds(x, pre + p, 0);
    let i = find(x, pre + p);
    if i >= 0 {
        let pl = pre.len() as int;
        let w = x.subrange(i, i + (pre + p).len());
        assert(w == pre + p);
        assert(x.subrange(i + pl, i + pl + p.len()) =~= w.subrange(pl, w.len() as int));
        assert(w.subrange(pl, w.len() as int) =~= p);
        assert(occurs_at(x, p, i + pl));
    }
}

/// A text without `host` is not claimed by `host`.
proof fn lemma_not_claimed(x: Seq<char>, host: Seq<char>)
    requires
        !contains(x, host),
    ensures
        host_match(x, host) is None,
{
    lemma_absent_longer(x, "https://"@, host);
    lemma_absent_longer(x, "http://"@, host);
    lemma_absent_longer(x, Seq::<char>::empty(), host);
    assert(Seq::<char>::empty() + host =~= host);
}

/// An occurrence in `x` is one in `pre + x` too.
proof fn lemma_contains_shift(pre: Seq<char>, x: Seq<char>, p: Seq<char>)
    requires
        contains(x, p),
    ensures
        contains(pre + x, p),
{
    lemma_find_from_bounds(x, p, 0);
    let i = find(x, p);
    assert((pre + x).subrange(i + pre.len(), i + pre.len() + p.len()) =~= x.subrange(i, i + p.len()));
    assert(occurs_at(pre + x, p, i + pre.len()));
    lemma_find_from_bounds(pre + x, p, 0);
}

/// A Codeberg address, with or without `https://`, names its owner and repository on
/// Codeberg — for names holding no `/` (the repository not ending in whitespace) in an
/// address where neither `github.com` nor `gitlab.com`, which the parser tries first,
/// occurs.
pub proof fn law_codeberg_address(o: Seq<char>, r: Seq<char>, g: Option<Seq<char>>)
    requires
        slash_free(o),
        slash_free(r),
        !is_ws(r.last()),
        !contains("https://codeberg.org/"@ + o + "/"@ + r, "github.com"@),
        !contains("https://codeberg.org/"@ + o + "/"@ + r, "gitlab.com"@),
    ensures
        parse_url_spec("codeberg.org/"@ + o + "/"@ + r, g) == Some((ProviderKind::Codeberg, o, r, None::<Seq<char>>)),
        parse_url_spec("https://codeberg.org/"@ + o + "/"@ + r, g) == Some(
            (ProviderKind::Codeberg, o, r, None::<Seq<char>>),
        ),
{
    reveal_strlit("codeberg.org/");
    reveal_strlit("https://codeberg.org/");
    reveal_strlit("codeberg.org");
    reveal_strlit("https://");
    reveal_strlit("/");
    let host = "codeberg.org"@;
    let bare = host + "/"@ + o + "/"@ + r;
    let full = "https://"@ + host + "/"@ + o + "/"@ + r;
    assert("codeberg.org/"@ + o + "/"@ + r =~= bare);
    assert("https://codeberg.org/"@ + o + "/"@ + r =~= full);
    assert(full =~= "https://"@ + bare);
    assert(slash_free(host));
    assert(!is_ws(host[0]));
    lemma_bare_address(host, o, r);
    lemma_https_address(host, o, r);
    if contains(bare, "github.com"@) {
        lemma_contains_shift("https://"@, bare, "github.com"@);
    }
    if contains(bare, "gitlab.com"@) {
        lemma_contains_shift("https://"@, bare, "gitlab.com"@);
    }
    lemma_not_claimed(bare, "github.com"@);
    lemma_not_claimed(bare, "gitlab.com"@);
    lemma_not_claimed(full, "github.com"@);
    lemma_not_claimed(full, "gitlab.com"@);
}

/// A GitHub address, with or without `https://`, names its owner and repository on GitHub,
/// for names holding no `/` (the repository not ending in whitespace).
pub proof fn law_github_address(o: Seq<char>, r: Seq<char>, g: Option<Seq<char>>)
    requires
        slash_free(o),
        slash_free(r),
        !is_ws(r.last()),
    ensures
        parse_url_spec("github.com/"@ + o + "/"@ + r, g) == Some((ProviderKind::GitHub, o, r, None::<Seq<char>>)),
        parse_url_spec("https://github.com/"@ + o + "/"@ + r, g) == Some(
            (ProviderKind::GitHub, o, r, None::<Seq<char>>),
        ),
{
    reveal_strlit("github.com/");
    reveal_strlit("https://github.com/");
    reveal_strlit("github.com");
    reveal_strlit("https://");
    reveal_strlit("/");
    let host = "github.com"@;
    let bare = host + "/"@ + o + "/"@ + r;
    let full = "https://"@ + host + "/"@ + o + "/"@ + r;
    assert("github.com/"@ + o + "/"@ + r =~= bare);
    assert("https://github.com/"@ + o + "/"@ + r =~= full);
    assert(slash_free(host));
    assert(!is_ws(host[0]));
    lemma_bare_address(host, o, r);
    lemma_https_address(host, o, r);
}

/// A GitLab address, with or without `https://`, names its owner and repository on GitLab —
/// for names holding no `/` (the repository not ending in whitespace) in an address where
/// `github.com`, which the parser tries first, does not occur.
pub proof fn law_gitlab_address(o: Seq<char>, r: Seq<char>, g: Option<Seq<char>>)
    requires
        slash_free(o),
        slash_free(r),
        !is_ws(r.last()),
        !contains("https://gitlab.com/"@ + o + "/"@ + r, "github.com"@),
    ensures
        parse_url_spec("gitlab.com/"@ + o + "/"@ + r, g) == Some((ProviderKind::GitLab, o, r, None::<Seq<char>>)),
        parse_url_spec("https://gitlab.com/"@ + o + "/"@ + r, g) == Some(
            (ProviderKind::GitLab, o, r, None::<Seq<char>>),
        ),
{
    reveal_strlit("gitlab.com/");
    reveal_strlit("https://gitlab.com/");
    reveal_strlit("gitlab.com");
    reveal_strlit("https://");
    reveal_strlit("/");
    let host = "gitlab.com"@;
    let bare = host + "/"@ + o + "/"@ + r;
    let full = "https://"@ + host + "/"@ + o + "/"@ + r;
    assert("gitlab.com/"@ + o + "/"@ + r =~= bare);
    assert("https://gitlab.com/"@ + o + "/"@ + r =~= full);
    assert(full =~= "https://"@ + bare);
    assert(slash_free(host));
    assert(!is_ws(host[0]));
    lemma_bare_address(host, o, r);
    lemma_https_address(host, o, r);
    if contains(bare, "github.com"@) {
        lemma_contains_shift("https://"@, bare, "github.com"@);
    }
    lemma_not_claimed(bare, "github.com"@);
    lemma_not_claimed(full, "github.com"@);
}

// ─── Suggestions ──────────────────────────────────────────────────────────────

/// Host of each provider name that the history records (GitHub for any other name).
pub open spec fn provider_host(p: Seq<char>) -> Seq<char> {
    if p == "gitlab"@ {
        "gitlab.com"@
    } else if p == "codeberg"@ {
        "codeberg.org"@
    } else if p == "gitea"@ {
        "gitea.com"@
    } else {
        "github.com"@
    }
}

proof fn lemma_hist_keeps(hist: Seq<HistoryEntry>, q: Seq<char>, acc: Seq<Seq<char>>, x: Seq<char>)
    requires
        acc.contains(x),
    ensures
        hist_sugg(hist, q, acc).contains(x),
    decreases hist.len(),
{
    if hist.len() > 0 {
        let a1 = crate::app_complete::add_cand(acc, crate::app_complete::short_name(hist[0]), q);
        let a2 = crate::app_complete::add_cand(a1, crate::app_complete::full_name(hist[0]), q);
        let i = choose|i: int| 0 <= i < acc.len() && acc[i] == x;
        assert(a1.contains(x)) by {
            assert(a1[i] == x);
        }
        let j = choose|j: int| 0 <= j < a1.len() && a1[j] == x;
        assert(a2.contains(x)) by {
            assert(a2[j] == x);
        }
        if a2.len() < crate::app_complete::max_suggestions() {
            lemma_hist_keeps(hist.drop_first(), q, a2, x);
        }
    }
}

proof fn lemma_prefix_keeps(ps: Seq<Seq<char>>, q: Seq<char>, acc: Seq<Seq<char>>, x: Seq<char>)
    requires
        acc.contains(x),
    ensures
        prefix_sugg(ps, q, acc).contains(x),
    decreases ps.len(),
{
    if ps.len() > 0 {
        if starts_with(ps[0], q) && !acc.contains(ps[0]) {
            let a2 = acc.push(ps[0]);
            let i = choose|i: int| 0 <= i < acc.len() && acc[i] == x;
            assert(a2[i] == x);
            if a2.len() < crate::app_complete::max_suggestions() {
                lemma_prefix_keeps(ps.drop_first(), q, a2, x);
            }
        } else {
            lemma_prefix_keeps(ps.drop_first(), q, acc, x);
        }
    }
}

/// The most recent repository is offered by its full address — its provider's host, then
/// its owner and repository — whenever that address matches what is typed.
pub proof fn law_recent_full_suggestion(a: App, b: App)
    requires
        autocomplete_rel(a, b),
        a.history@.len() > 0,
        lowercase(trim(a.input@)).len() > 0,
        cand_matches(
            provider_host(a.history@[0].provider@) + "/"@ + a.history@[0].owner@ + "/"@ + a.history@[0].repo@,
            lowercase(trim(a.input@)),
        ),
    ensures
        string_views(b.autocomplete_suggestions@).contains(
            provider_host(a.history@[0].provider@) + "/"@ + a.history@[0].owner@ + "/"@ + a.history@[0].repo@,
        ),
{
    let h = a.history@[0];
    let q = lowercase(trim(a.input@));
    let full = provider_host(h.provider@) + "/"@ + h.owner@ + "/"@ + h.repo@;
    assert(crate::app_complete::full_name(h) == full);
    let short = crate::app_complete::short_name(h);
    let a1 = crate::app_complete::add_cand(Seq::empty(), short, q);
    let a2 = crate::app_complete::add_cand(a1, full, q);
    reveal_strlit("gitlab.com");
    reveal_strlit("codeberg.org");
    reveal_strlit("gitea.com");
    reveal_strlit("github.com");
    reveal_strlit("/");
    assert(full.len() > short.len());
    if a1.contains(full) {
        let i = choose|i: int| 0 <= i < a1.len() && a1[i] == full;
        assert(a1[i] == short);
    }
    assert(a2.contains(full)) by {
        if !a1.contains(full) {
            assert(a2 == a1.push(full));
            assert(a2[a1.len() as int] == full);
        }
    }
    let hist = a.history@;
    assert(hist_sugg(hist, q, Seq::empty()).contains(full)) by {
        if a2.len() < crate::app_complete::max_suggestions() {
            lemma_hist_keeps(hist.drop_first(), q, a2, full);
        }
    }
    let s1 = hist_sugg(hist, q, Seq::empty());
    if s1.len() < crate::app_complete::max_suggestions() {
        lemma_prefix_keeps(url_prefixes(), q, s1, full);
    }
    assert(suggestions_for(hist, q).contains(full));
}

// ─── Command line ─────────────────────────────────────────────────────────────

/// An argument taken as the repository address: no leading `-` and no subcommand name.
pub open spec fn plain_word(w: Seq<char>) -> bool {
    !starts_with(w, "-"@) && w != "browse"@ && w != "get"@ && w != "sync"@
}

/// The last of `ws`, if any.
pub open spec fn last_word(ws: Seq<Seq<char>>) -> Option<Seq<char>> {
    if ws.len() == 0 {
        None
    } else {
        Some(ws.last())
    }
}

proof fn lemma_dash_prefix(a: Seq<char>, p: Seq<char>)
    requires
        starts_with(a, p),
        p.len() > 0,
        p[0] == '-',
    ensures
        starts_with(a, "-"@),
{
    reveal_strlit("-");
    assert(a[0] == a.subrange(0, p.len() as int)[0]);
    assert(a.subrange(0, 1) =~= "-"@);
}

/// Plain words in `raw[i..j]` only set the address, the last one winning.
proof fn lemma_scan_words(raw: Seq<Seq<char>>, i: int, j: int, acc: (Option<Seq<char>>, Option<Seq<char>>, Option<Seq<char>>))
    requires
        0 <= i <= j <= raw.len(),
        forall|k: int| i <= k < j ==> plain_word(#[trigger] raw[k]),
    ensures
        scan_args(raw, i, acc) == scan_args(
            raw,
            j,
            (if j > i {
                Some(raw[j - 1])
            } else {
                acc.0
            }, acc.1, acc.2),
        ),
    decreases j - i,
{
    if i < j {
        let a = raw[i];
        assert(plain_word(a));
        reveal_strlit("--ext");
        reveal_strlit("--theme");
        reveal_strlit("--ext=");
        reveal_strlit("--theme=");
        reveal_strlit("-");
        if a == "--ext"@ || a == "--theme"@ {
            assert(a.subrange(0, 1) =~= "-"@);
        }
        if starts_with(a, "--ext="@) {
            lemma_dash_prefix(a, "--ext="@);
        }
        if starts_with(a, "--theme="@) {
            lemma_dash_prefix(a, "--theme="@);
        }
        assert(scan_args(raw, i, acc) == scan_args(raw, i + 1, (Some(a), acc.1, acc.2)));
        lemma_scan_words(raw, i + 1, j, (Some(a), acc.1, acc.2));
    }
}

/// `--theme v` sets the theme to `v`, and `v` is not taken as the address: with plain
/// words around it, the session opens the last of those words (if any) with theme `v`.
pub proof fn law_theme_option(pre: Seq<Seq<char>>, v: Seq<char>, post: Seq<Seq<char>>, c: Command)
    requires
        forall|k: int| 0 <= k < pre.len() ==> plain_word(#[trigger] pre[k]),
        forall|k: int| 0 <= k < post.len() ==> plain_word(#[trigger] post[k]),
        pre.len() == 0 || pre[0] != "config"@,
        v != "--help"@ && v != "-h"@ && v != "--version"@ && v != "-V"@,
        command_spec(pre + seq!["--theme"@, v] + post, c),
    ensures
        c matches Command::Run(args) && opt_sv(args.theme) == Some(v) && opt_sv(args.ext_filter) is None
            && opt_sv(args.url) == last_word(pre + post),
{
    reveal_strlit("--theme");
    reveal_strlit("--help");
    reveal_strlit("-h");
    reveal_strlit("--version");
    reveal_strlit("-V");
    reveal_strlit("config");
    reveal_strlit("browse");
    reveal_strlit("get");
    reveal_strlit("sync");
    reveal_strlit("--ext");
    reveal_strlit("-");
    let raw = pre + seq!["--theme"@, v] + post;
    let n = pre.len() as int;
    assert(raw[n] == "--theme"@);
    assert(raw[n + 1] == v);
    assert forall|k: int| 0 <= k < n implies plain_word(#[trigger] raw[k]) by {
        assert(raw[k] == pre[k]);
    }
    assert forall|k: int| n + 2 <= k < raw.len() implies plain_word(#[trigger] raw[k]) by {
        assert(raw[k] == post[k - n - 2]);
    }
    // no help, version or config request
    assert forall|k: int| 0 <= k < raw.len() implies raw[k] != "--help"@ && raw[k] != "-h"@
        && raw[k] != "--version"@ && raw[k] != "-V"@ by {
        if k < n || k >= n + 2 {
            assert(plain_word(raw[k]));
            if raw[k] == "--help"@ || raw[k] == "-h"@ || raw[k] == "--version"@ || raw[k] == "-V"@ {
                assert(raw[k].subrange(0, 1) =~= "-"@);
            }
        }
    }
    if n == 0 {
        assert(raw[0] == "--theme"@);
    } else {
        assert(raw[0] == pre[0]);
    }
    lemma_scan_words(raw, 0, n, (None, None, None));
    let u = if n > 0 { Some(raw[n - 1]) } else { None::<Seq<char>> };
    assert(scan_args(raw, n, (u, None, None)) == scan_args(raw, n + 2, (u, None, Some(v))));
    lemma_scan_words(raw, n + 2, raw.len() as int, (u, None, Some(v)));
    assert(scan_args(raw, raw.len() as int, (if raw.len() > n + 2 {
        Some(raw[raw.len() - 1])
    } else {
        u
    }, None, Some(v))) == (if raw.len() > n + 2 {
        Some(raw[raw.len() - 1])
    } else {
        u
    }, None::<Seq<char>>, Some(v)));
    if post.len() > 0 {
        assert(raw[raw.len() - 1] == post.last());
        assert((pre + post).last() == post.last());
    } else if n > 0 {
        assert(raw[n - 1] == pre.last());
        assert(pre + post =~= pre);
    } else {
        assert((pre + post).len() == 0);
    }
}


/// `--ext v` sets the extension filter to `v`, and `v` is not taken as the address: with
/// plain words around it, the session opens the last of those words (if any) filtered by `v`.
pub proof fn law_ext_option(pre: Seq<Seq<char>>, v: Seq<char>, post: Seq<Seq<char>>, c: Command)
    requires
        forall|k: int| 0 <= k < pre.len() ==> plain_word(#[trigger] pre[k]),
        forall|k: int| 0 <= k < post.len() ==> plain_word(#[trigger] post[k]),
        pre.len() == 0 || pre[0] != "config"@,
        v != "--help"@ && v != "-h"@ && v != "--version"@ && v != "-V"@,
        command_spec(pre + seq!["--ext"@, v] + post, c),
    ensures
        c matches Command::Run(args) && opt_sv(args.ext_filter) == Some(v) && opt_sv(args.theme) is None
            && opt_sv(args.url) == last_word(pre + post),
{
    reveal_strlit("--theme");
    reveal_strlit("--help");
    reveal_strlit("-h");
    reveal_strlit("--version");
    reveal_strlit("-V");
    reveal_strlit("config");
    reveal_strlit("browse");
    reveal_strlit("get");
    reveal_strlit("sync");
    reveal_strlit("--ext");
    reveal_strlit("-");
    let raw = pre + seq!["--ext"@, v] + post;
    let n = pre.len() as int;
    assert(raw[n] == "--ext"@);
    assert(raw[n + 1] == v);
    assert forall|k: int| 0 <= k < n implies plain_word(#[trigger] raw[k]) by {
        assert(raw[k] == pre[k]);
    }
    assert forall|k: int| n + 2 <= k < raw.len() implies plain_word(#[trigger] raw[k]) by {
        assert(raw[k] == post[k - n - 2]);
    }
    // no help, version or config request
    assert forall|k: int| 0 <= k < raw.len() implies raw[k] != "--help"@ && raw[k] != "-h"@
        && raw[k] != "--version"@ && raw[k] != "-V"@ by {
        if k < n || k >= n + 2 {
            assert(plain_word(raw[k]));
            if raw[k] == "--help"@ || raw[k] == "-h"@ || raw[k] == "--version"@ || raw[k] == "-V"@ {
                assert(raw[k].subrange(0, 1) =~= "-"@);
            }
        }
    }
    if n == 0 {
        assert(raw[0] == "--ext"@);
    } else {
        assert(raw[0] == pre[0]);
    }
    lemma_scan_words(raw, 0, n, (None, None, None));
    let u = if n > 0 { Some(raw[n - 1]) } else { None::<Seq<char>> };
    assert(scan_args(raw, n, (u, None, None)) == scan_args(raw, n + 2, (u, Some(v), None)));
    lemma_scan_words(raw, n + 2, raw.len() as int, (u, Some(v), None));
    assert(scan_args(raw, raw.len() as int, (if raw.len() > n + 2 {
        Some(raw[raw.len() - 1])
    } else {
        u
    }, Some(v), None)) == (if raw.len() > n + 2 {
        Some(raw[raw.len() - 1])
    } else {
        u
    }, Some(v), None::<Seq<char>>));
    if post.len() > 0 {
        assert(raw[raw.len() - 1] == post.last());
        assert((pre + post).last() == post.last());
    } else if n > 0 {
        assert(raw[n - 1] == pre.last());
        assert(pre + post =~= pre);
    } else {
        assert((pre + post).len() == 0);
    }
}

/// `browse v`, `get v` and `sync v` open `v`, unless a plain word after them names another
/// address: with plain words around the subcommand, the session opens the last plain word
/// after it, or else `v`.
pub proof fn law_subcommand_address(
    pre: Seq<Seq<char>>,
    cmd: Seq<char>,
    v: Seq<char>,
    post: Seq<Seq<char>>,
    c: Command,
)
    requires
        cmd == "browse"@ || cmd == "get"@ || cmd == "sync"@,
        forall|k: int| 0 <= k < pre.len() ==> plain_word(#[trigger] pre[k]),
        forall|k: int| 0 <= k < post.len() ==> plain_word(#[trigger] post[k]),
        pre.len() == 0 || pre[0] != "config"@,
        v != "--help"@ && v != "-h"@ && v != "--version"@ && v != "-V"@,
        command_spec(pre + seq![cmd, v] + post, c),
    ensures
        c matches Command::Run(args) && opt_sv(args.url) == Some(
            if post.len() > 0 {
                post.last()
            } else {
                v
            },
        ) && opt_sv(args.ext_filter) is None && opt_sv(args.theme) is None,
{
    reveal_strlit("--help");
    reveal_strlit("-h");
    reveal_strlit("--version");
    reveal_strlit("-V");
    reveal_strlit("config");
    reveal_strlit("browse");
    reveal_strlit("get");
    reveal_strlit("sync");
    reveal_strlit("-");
    let raw = pre + seq![cmd, v] + post;
    let n = pre.len() as int;
    assert(raw[n] == cmd);
    assert(raw[n + 1] == v);
    assert forall|k: int| 0 <= k < n implies plain_word(#[trigger] raw[k]) by {
        assert(raw[k] == pre[k]);
    }
    assert forall|k: int| n + 2 <= k < raw.len() implies plain_word(#[trigger] raw[k]) by {
        assert(raw[k] == post[k - n - 2]);
    }
    assert forall|k: int| 0 <= k < raw.len() implies raw[k] != "--help"@ && raw[k] != "-h"@
        && raw[k] != "--version"@ && raw[k] != "-V"@ by {
        if k < n || k >= n + 2 {
            assert(plain_word(raw[k]));
            if raw[k] == "--help"@ || raw[k] == "-h"@ || raw[k] == "--version"@ || raw[k] == "-V"@ {
                assert(raw[k].subrange(0, 1) =~= "-"@);
            }
        } else if k == n {
            if raw[k] == "--help"@ || raw[k] == "-h"@ || raw[k] == "--version"@ || raw[k] == "-V"@ {
                assert(raw[k][0] == '-');
            }
        }
    }
    if n == 0 {
        assert(raw[0] == cmd);
    } else {
        assert(raw[0] == pre[0]);
    }
    lemma_scan_words(raw, 0, n, (None, None, None));
    let u = if n > 0 { Some(raw[n - 1]) } else { None::<Seq<char>> };
    assert(scan_args(raw, n, (u, None, None)) == scan_args(raw, n + 2, (Some(v), None, None)));
    lemma_scan_words(raw, n + 2, raw.len() as int, (Some(v), None, None));
    let w = if raw.len() > n + 2 { Some(raw[raw.len() - 1]) } else { Some(v) };
    assert(scan_args(raw, raw.len() as int, (w, None, None)) == (w, None::<Seq<char>>, None::<Seq<char>>));
    if post.len() > 0 {
        assert(raw[raw.len() - 1] == post.last());
    }
    assert(!raw.contains("--help"@) && !raw.contains("-h"@) && !raw.contains("--version"@) && !raw.contains("-V"@));
    assert(raw[0] != "config"@) by {
        if n == 0 {
            assert("browse"@[0] != "config"@[0]);
            assert("get"@.len() != "config"@.len());
            assert("sync"@.len() != "config"@.len());
        }
    }
}

/// The most recent repository is offered as `owner/repo` whenever that matches what is
/// typed.
pub proof fn law_recent_short_suggestion(a: App, b: App)
    requires
        autocomplete_rel(a, b),
        a.history@.len() > 0,
        lowercase(trim(a.input@)).len() > 0,
        cand_matches(a.history@[0].owner@ + "/"@ + a.history@[0].repo@, lowercase(trim(a.input@))),
    ensures
        string_views(b.autocomplete_suggestions@).contains(a.history@[0].owner@ + "/"@ + a.history@[0].repo@),
{
    let h = a.history@[0];
    let q = lowercase(trim(a.input@));
    let short = h.owner@ + "/"@ + h.repo@;
    assert(crate::app_complete::short_name(h) == short);
    let a1 = crate::app_complete::add_cand(Seq::empty(), short, q);
    assert(a1 == seq![short]);
    assert(a1[0] == short);
    let a2 = crate::app_complete::add_cand(a1, crate::app_complete::full_name(h), q);
    assert(a2.contains(short)) by {
        assert(a2[0] == short);
    }
    let hist = a.history@;
    assert(hist_sugg(hist, q, Seq::empty()).contains(short)) by {
        if a2.len() < crate::app_complete::max_suggestions() {
            lemma_hist_keeps(hist.drop_first(), q, a2, short);
        }
    }
    let s1 = hist_sugg(hist, q, Seq::empty());
    if s1.len() < crate::app_complete::max_suggestions() {
        lemma_prefix_keeps(url_prefixes(), q, s1, short);
    }
    assert(suggestions_for(hist, q).contains(short));
}

} // verus!
