//! Properties that hold across calls: cycles of the mode keys, selections and pins that
//! undo themselves, retries that back off, suggestions without repeats, recent repositories
//! that reopen, addresses that ignore padding, listings that rebuild to themselves, and the
//! splitting and highlighting of names.
use vstd::prelude::*;
use vstd::arithmetic::power2::{pow2, lemma_pow2_unfold, lemma2_to64};
use crate::app::{App, path_set};
use crate::app_actions::{
    next_min_size, toggle, toggle_all, visible_paths, invert_rel, toggle_select_rel, toggle_bookmark_rel,
    next_theme_rel, current_spec, first_index,
};
use crate::app_complete::{suggestions_for, hist_sugg, prefix_sugg, add_cand, max_suggestions};
use crate::cli::{config_set_spec, config_unset_spec, known_unset_key};
use crate::config::{Config, theme_index};
use crate::tasks::retry_delay;
use crate::ui_logic::runs_match;
use crate::view::split_all;

verus! {

// ─── Mode keys ────────────────────────────────────────────────────────────────

/// Four presses of the size-filter key come back to where they started, through off,
/// 1 KB, 100 KB and 1 MB.
pub proof fn law_size_filter_cycle(m: Option<u64>)
    requires
        m is None || m == Some(1024u64) || m == Some(100_000u64) || m == Some(1_000_000u64),
    ensures
        next_min_size(next_min_size(next_min_size(next_min_size(m)))) == m,
        next_min_size(None) == Some(1024u64),
        next_min_size(Some(1024u64)) == Some(100_000u64),
        next_min_size(Some(100_000u64)) == Some(1_000_000u64),
        next_min_size(Some(1_000_000u64)) is None,
{
}

/// Eight presses of the theme key come back to the starting theme.
#[verifier::spinoff_prover]
#[verifier::rlimit(40)]
pub proof fn law_theme_cycle(states: Seq<App>)
    requires
        states.len() == 9,
        forall|i: int| 0 <= i < 8 ==> next_theme_rel(#[trigger] states[i], states[i + 1]),
    ensures
        states[8].theme_name == states[0].theme_name,
{
    let idx = Seq::new(9, |i: int| theme_index(states[i].theme_name));
    assert forall|i: int| 0 <= i < 8 implies #[trigger] idx[i + 1] == (idx[i] + 1) % 8 by {
        assert(next_theme_rel(states[i], states[i + 1]));
    }
    lemma_index_steps(idx, 8);
    assert(theme_index(states[8].theme_name) == theme_index(states[0].theme_name));
}

proof fn lemma_index_steps(idx: Seq<int>, k: int)
    requires
        idx.len() == 9,
        0 <= k <= 8,
        0 <= idx[0] < 8,
        forall|i: int| 0 <= i < 8 ==> #[trigger] idx[i + 1] == (idx[i] + 1) % 8,
    ensures
        idx[k] == (idx[0] + k) % 8,
    decreases k,
{
    if k > 0 {
        lemma_index_steps(idx, k - 1);
        let j = k - 1;
        assert(idx[j + 1] == (idx[j] + 1) % 8);
    }
}

// ─── Selections and pins ──────────────────────────────────────────────────────

proof fn lemma_toggle_twice(s: Set<Seq<char>>, p: Seq<char>)
    ensures
        toggle(toggle(s, p), p) == s,
{
    assert(toggle(toggle(s, p), p) =~= s);
}

proof fn lemma_toggle_commutes(s: Set<Seq<char>>, p: Seq<char>, q: Seq<char>)
    ensures
        toggle(toggle(s, p), q) == toggle(toggle(s, q), p),
{
    assert(toggle(toggle(s, p), q) =~= toggle(toggle(s, q), p));
}

proof fn lemma_toggle_all_commutes(s: Set<Seq<char>>, ps: Seq<Seq<char>>, p: Seq<char>)
    ensures
        toggle_all(toggle(s, p), ps) == toggle(toggle_all(s, ps), p),
    decreases ps.len(),
{
    if ps.len() > 0 {
        lemma_toggle_all_commutes(s, ps.drop_last(), p);
        lemma_toggle_commutes(toggle_all(s, ps.drop_last()), p, ps.last());
    }
}

proof fn lemma_toggle_all_twice(s: Set<Seq<char>>, ps: Seq<Seq<char>>)
    ensures
        toggle_all(toggle_all(s, ps), ps) == s,
    decreases ps.len(),
{
    if ps.len() > 0 {
        let qs = ps.drop_last();
        let x = ps.last();
        let y = toggle_all(s, qs);
        lemma_toggle_all_commutes(y, qs, x);
        lemma_toggle_all_twice(s, qs);
        lemma_toggle_twice(toggle_all(y, qs), x);
    }
}

/// Inverting the selection twice restores the selected paths.
pub proof fn law_invert_twice(a: App, b: App, c: App)
    requires
        invert_rel(a, b),
        invert_rel(b, c),
    ensures
        path_set(c.selected@) == path_set(a.selected@),
{
    assert(visible_paths(b) == visible_paths(a));
    lemma_toggle_all_twice(path_set(a.selected@), visible_paths(a));
}

/// Toggling the selection of the highlighted entry twice restores the selected paths.
pub proof fn law_toggle_select_twice(a: App, b: App, c: App)
    requires
        toggle_select_rel(a, b),
        toggle_select_rel(b, c),
    ensures
        path_set(c.selected@) == path_set(a.selected@),
{
    assert(current_spec(b) == current_spec(a));
    if let Some(n) = current_spec(a) {
        lemma_toggle_twice(path_set(a.selected@), n.path@);
    }
}

/// Pinning the highlighted entry twice leaves the same paths pinned, when no path is
/// pinned twice to begin with; the pins stay free of repeats.
pub proof fn law_pin_twice(a: App, b: App, c: App)
    requires
        crate::app::distinct_paths(a.bookmarks@),
        toggle_bookmark_rel(a, b),
        toggle_bookmark_rel(b, c),
    ensures
        path_set(c.bookmarks@) == path_set(a.bookmarks@),
        crate::app::distinct_paths(b.bookmarks@),
        crate::app::distinct_paths(c.bookmarks@),
{
    assert(current_spec(b) == current_spec(a));
    if let Some(n) = current_spec(a) {
        let s = a.bookmarks@;
        crate::app_actions::lemma_toggled_distinct(s, n.path);
        crate::app_actions::lemma_toggled_distinct(b.bookmarks@, n.path);
        lemma_index_facts(s, n.path@);
        lemma_index_facts(b.bookmarks@, n.path@);
        if first_index(s, n.path@) >= 0 {
            let i = first_index(s, n.path@);
            let r = s.remove(i);
            assert(!path_set(r).contains(n.path@)) by {
                if path_set(r).contains(n.path@) {
                    let j = choose|j: int| 0 <= j < r.len() && #[trigger] r[j]@ == n.path@;
                    let bj = if j < i { j } else { j + 1 };
                    assert(r[j] == s[bj]);
                }
            }
            assert(path_set(c.bookmarks@) =~= path_set(a.bookmarks@)) by {
                assert forall|p: Seq<char>| path_set(a.bookmarks@).contains(p) implies path_set(c.bookmarks@).contains(p) by {
                    let j = choose|j: int| 0 <= j < s.len() && #[trigger] s[j]@ == p;
                    if p != n.path@ {
                        let rj = if j < i { j } else { j - 1 };
                        assert(r[rj] == s[j]);
                        assert(c.bookmarks@[rj] == r[rj]);
                    } else {
                        assert(c.bookmarks@[r.len() as int] == n.path);
                    }
                }
                assert forall|p: Seq<char>| path_set(c.bookmarks@).contains(p) implies path_set(a.bookmarks@).contains(p) by {
                    let j = choose|j: int| 0 <= j < c.bookmarks@.len() && #[trigger] c.bookmarks@[j]@ == p;
                    if j < r.len() {
                        let bj = if j < i { j } else { j + 1 };
                        assert(r[j] == s[bj]);
                    } else {
                        assert(s[i]@ == n.path@);
                    }
                }
            }
        } else {
            let r = s.push(n.path);
            lemma_index_facts(r, n.path@);
            assert(r[s.len() as int]@ == n.path@);
            assert(first_index(r, n.path@) == s.len()) by {
                crate::app_actions::lemma_first_index_pub(r, n.path@, s.len() as int);
            }
            assert(c.bookmarks@ =~= s);
        }
    }
}

proof fn lemma_index_facts(v: Seq<String>, p: Seq<char>)
    ensures
        -1 <= first_index(v, p) < v.len(),
        first_index(v, p) >= 0 ==> v[first_index(v, p)]@ == p,
        first_index(v, p) < 0 ==> forall|j: int| 0 <= j < v.len() ==> (#[trigger] v[j])@ != p,
    decreases v.len(),
{
    if v.len() > 0 {
        lemma_index_facts(v.drop_last(), p);
        if first_index(v.drop_last(), p) < 0 {
            assert forall|j: int| 0 <= j < v.len() - 1 implies (#[trigger] v[j])@ != p by {
                assert(v.drop_last()[j] == v[j]);
            }
        } else {
            assert(v.drop_last()[first_index(v.drop_last(), p)] == v[first_index(v.drop_last(), p)]);
        }
    }
}

// ─── Downloads ────────────────────────────────────────────────────────────────

/// The wait before each retry doubles, from 400 ms before the first, for as long as the
/// wait fits in 64 bits.
pub proof fn law_backoff_doubles(k: nat)
    requires
        1 <= k <= 55,
    ensures
        retry_delay(k + 1) == 2 * retry_delay(k),
        retry_delay(1) == 400,
{
    lemma2_to64();
    lemma_pow2_unfold(k + 1);
    vstd::bits::lemma_u64_pow2_no_overflow(k);
    lemma_pow2_bound(k);
    assert((k + 1) % 64 == k + 1);
    assert(k % 64 == k);
}

proof fn lemma_pow2_bound(k: nat)
    requires
        k <= 55,
    ensures
        200 * pow2(k + 1) < 0x1_0000_0000_0000_0000,
{
    lemma2_to64();
    vstd::arithmetic::power2::lemma_pow2_adds(56, 8);
    if k + 1 < 56 {
        vstd::arithmetic::power2::lemma_pow2_strictly_increases(k + 1, 56);
    }
    let a = pow2(k + 1);
    let b = pow2(56);
    assert(b * 256 == 0x1_0000_0000_0000_0000);
    assert(200 * a < 0x1_0000_0000_0000_0000) by (nonlinear_arith)
        requires
            a <= b,
            b * 256 == 0x1_0000_0000_0000_0000,
    ;
}

// ─── Suggestions ──────────────────────────────────────────────────────────────

pub open spec fn no_repeats(s: Seq<Seq<char>>) -> bool {
    forall|i: int, j: int| 0 <= i < j < s.len() ==> s[i] != s[j]
}

proof fn lemma_add_cand(acc: Seq<Seq<char>>, c: Seq<char>, q: Seq<char>)
    requires
        no_repeats(acc),
    ensures
        no_repeats(add_cand(acc, c, q)),
        add_cand(acc, c, q).len() <= acc.len() + 1,
{
    if add_cand(acc, c, q) != acc {
        let r = acc.push(c);
        assert forall|i: int, j: int| 0 <= i < j < r.len() implies r[i] != r[j] by {
            if j == acc.len() {
                assert(r[i] == acc[i]);
                assert(acc.contains(acc[i]));
            }
        }
    }
}

proof fn lemma_hist_sugg(hist: Seq<crate::config::HistoryEntry>, q: Seq<char>, acc: Seq<Seq<char>>)
    requires
        no_repeats(acc),
        acc.len() < max_suggestions(),
    ensures
        no_repeats(hist_sugg(hist, q, acc)),
        hist_sugg(hist, q, acc).len() <= max_suggestions() + 1,
    decreases hist.len(),
{
    if hist.len() > 0 {
        let a1 = add_cand(acc, crate::app_complete::short_name(hist[0]), q);
        lemma_add_cand(acc, crate::app_complete::short_name(hist[0]), q);
        lemma_add_cand(a1, crate::app_complete::full_name(hist[0]), q);
        let a2 = add_cand(a1, crate::app_complete::full_name(hist[0]), q);
        if a2.len() < max_suggestions() {
            lemma_hist_sugg(hist.drop_first(), q, a2);
        }
    }
}

proof fn lemma_prefix_sugg(ps: Seq<Seq<char>>, q: Seq<char>, acc: Seq<Seq<char>>)
    requires
        no_repeats(acc),
        acc.len() < max_suggestions(),
    ensures
        no_repeats(prefix_sugg(ps, q, acc)),
        prefix_sugg(ps, q, acc).len() <= max_suggestions(),
    decreases ps.len(),
{
    if ps.len() > 0 {
        if crate::text::starts_with(ps[0], q) && !acc.contains(ps[0]) {
            let r = acc.push(ps[0]);
            assert forall|i: int, j: int| 0 <= i < j < r.len() implies r[i] != r[j] by {
                if j == acc.len() {
                    assert(r[i] == acc[i]);
                    assert(acc.contains(acc[i]));
                }
            }
            if r.len() < max_suggestions() {
                lemma_prefix_sugg(ps.drop_first(), q, r);
            }
        } else {
            lemma_prefix_sugg(ps.drop_first(), q, acc);
        }
    }
}

/// The suggestions for a query never repeat an entry, and there are at most seven.
pub proof fn law_suggestions_distinct(hist: Seq<crate::config::HistoryEntry>, q: Seq<char>)
    ensures
        no_repeats(suggestions_for(hist, q)),
        suggestions_for(hist, q).len() <= max_suggestions() + 1,
{
    lemma_hist_sugg(hist, q, Seq::empty());
    let s1 = hist_sugg(hist, q, Seq::empty());
    if s1.len() < max_suggestions() {
        lemma_prefix_sugg(crate::app_complete::url_prefixes(), q, s1);
    }
}

// ─── Configuration ────────────────────────────────────────────────────────────

/// Unsetting a key after setting it leaves the configuration as unsetting alone would.
pub proof fn law_unset_after_set(c: Config, key: Seq<char>, val: String, c1: Config, c2: Config, c3: Config)
    requires
        known_unset_key(key),
        config_set_spec(c, key, val, c1),
        config_unset_spec(c1, key, c2),
        config_unset_spec(c, key, c3),
    ensures
        c2 == c3,
{
    reveal_strlit("github_token");
    reveal_strlit("gitlab_token");
    reveal_strlit("codeberg_token");
    reveal_strlit("gitea_token");
    reveal_strlit("gitea_url");
    reveal_strlit("theme");
    reveal_strlit("parallel");
    reveal_strlit("path");
    assert("github_token"@.len() == 12 && "gitlab_token"@.len() == 12 && "codeberg_token"@.len() == 14);
    assert("gitea_token"@.len() == 11 && "gitea_url"@.len() == 9 && "theme"@.len() == 5);
    assert("parallel"@.len() == 8 && "path"@.len() == 4);
    assert("gitlab_token"@ != "github_token"@) by {
        assert("gitlab_token"@[3] != "github_token"@[3]);
    }
}

// ─── Recent repositories ──────────────────────────────────────────────────────

/// Pressing digit `k` on an empty home input opens the `k`-th recent repository itself:
/// the provider recorded with it, its owner and repository, and for a Gitea entry its
/// instance (the recorded one, else the configured one, else the public one).
pub proof fn law_recent_digit_reopens(a: App, c: char, b: App, quit: bool)
    requires
        a.screen == crate::app::Screen::Home,
        a.input@.len() == 0,
        '1' <= c <= '6',
        crate::app_keys::history_slot(c) < a.history@.len(),
        crate::app_panels::key_rel(a, crate::app::KeyCode::Char(c), false, b, quit),
    ensures
        !quit,
        b.provider == crate::app_keys::entry_kind(a.history@[crate::app_keys::history_slot(c)].provider@),
        b.owner@ == a.history@[crate::app_keys::history_slot(c)].owner@,
        b.repo@ == a.history@[crate::app_keys::history_slot(c)].repo@,
        crate::app_keys::opt_sv(b.instance_url) == crate::app_keys::entry_inst(
            a,
            a.history@[crate::app_keys::history_slot(c)],
        ),
        crate::app_actions::load_repo_rel(a, b.provider, b.owner, b.repo, b.instance_url, b),
{
    assert(crate::app_keys::home_shortcut(a, c));
}

// ─── History ──────────────────────────────────────────────────────────────────

/// After a repository is opened it heads the history, and no later entry names it again.
pub proof fn law_history_front(old: Seq<crate::config::HistoryEntry>, e: crate::config::HistoryEntry)
    ensures
        crate::config::pushed_history(old, e)[0] == e,
        forall|i: int|
            1 <= i < crate::config::pushed_history(old, e).len() ==> !crate::config::same_repo(
                #[trigger] crate::config::pushed_history(old, e)[i],
                e,
            ),
{
    broadcast use vstd::seq_lib::group_filter_ensures;

    let pred = |x: crate::config::HistoryEntry| !crate::config::same_repo(x, e);
    let h = crate::config::pushed_history(old, e);
    assert forall|i: int| 1 <= i < h.len() implies !crate::config::same_repo(#[trigger] h[i], e) by {
        assert(h[i] == old.filter(pred)[i - 1]);
        assert(pred(old.filter(pred)[i - 1]));
    }
}

// ─── Names ────────────────────────────────────────────────────────────────────

/// Pieces joined back with the separator.
pub open spec fn join_with(parts: Seq<Seq<char>>, c: char) -> Seq<char>
    decreases parts.len(),
{
    if parts.len() == 0 {
        Seq::empty()
    } else if parts.len() == 1 {
        parts[0]
    } else {
        parts[0].push(c) + join_with(parts.drop_first(), c)
    }
}

/// Joining the breadcrumb's pieces with `/` gives the path back.
pub proof fn law_split_join(s: Seq<char>, c: char)
    ensures
        join_with(split_all(s, c), c) == s,
    decreases s.len(),
{
    let k = crate::text::next_sep(s, c, 0);
    crate::text::lemma_next_sep(s, c, 0);
    if k < s.len() {
        law_split_join(s.skip(k + 1), c);
        let parts = split_all(s, c);
        let rest = split_all(s.skip(k + 1), c);
        assert(parts == seq![s.take(k)] + rest);
        assert(parts.drop_first() =~= rest);
        assert(rest.len() >= 1) by {
            lemma_split_nonempty(s.skip(k + 1), c);
        }
        assert(s.take(k).push(c) + s.skip(k + 1) =~= s);
    }
}

proof fn lemma_split_nonempty(s: Seq<char>, c: char)
    ensures
        split_all(s, c).len() >= 1,
    decreases s.len(),
{
    crate::text::lemma_next_sep(s, c, 0);
}

/// Text of the runs, in order.
pub open spec fn runs_text(runs: Seq<(Seq<char>, bool)>) -> Seq<char>
    decreases runs.len(),
{
    if runs.len() == 0 {
        Seq::empty()
    } else {
        runs_text(runs.drop_last()) + runs.last().0
    }
}

/// The highlighted and plain runs of a name spell the name.
pub proof fn law_runs_spell_text(t: Seq<char>, pos: Seq<usize>, runs: Seq<(Seq<char>, bool)>)
    requires
        runs_match(t, pos, runs),
    ensures
        runs_text(runs) == t,
    decreases runs.len(),
{
    if runs.len() > 0 {
        let n = t.len() - runs.last().0.len();
        law_runs_spell_text(t.take(n), pos, runs.drop_last());
        assert(t.take(n) + t.skip(n) =~= t);
    }
}

// ─── Provider ids ─────────────────────────────────────────────────────────────

proof fn lemma_urlenc_plain(x: Seq<char>)
    requires
        forall|i: int| 0 <= i < x.len() ==> x[i] != '/',
    ensures
        crate::providers::urlenc_spec(x) == x,
    decreases x.len(),
{
    if x.len() > 0 {
        lemma_urlenc_plain(x.drop_last());
        assert(x.drop_last() + seq![x.last()] =~= x);
    }
}

proof fn lemma_urlenc_append(x: Seq<char>, y: Seq<char>)
    ensures
        crate::providers::urlenc_spec(x + y) == crate::providers::urlenc_spec(x) + crate::providers::urlenc_spec(y),
    decreases y.len(),
{
    if y.len() == 0 {
        assert(x + y =~= x);
        assert(crate::providers::urlenc_spec(x) + crate::providers::urlenc_spec(y) =~= crate::providers::urlenc_spec(x));
    } else {
        lemma_urlenc_append(x, y.drop_last());
        assert((x + y).drop_last() =~= x + y.drop_last());
        assert((x + y).last() == y.last());
    }
}

/// GitLab's project id for `owner/repo` is that path with its `/` URL-encoded, for names
/// without `/`.
pub proof fn law_gl_id_is_urlenc(owner: Seq<char>, repo: Seq<char>)
    requires
        forall|i: int| 0 <= i < owner.len() ==> owner[i] != '/',
        forall|i: int| 0 <= i < repo.len() ==> repo[i] != '/',
    ensures
        crate::providers::urlenc_spec(owner + "/"@ + repo) == crate::providers::gl_id(owner, repo),
{
    reveal_strlit("/");
    reveal_strlit("%2F");
    lemma_urlenc_plain(owner);
    lemma_urlenc_plain(repo);
    lemma_urlenc_append(owner + "/"@, repo);
    lemma_urlenc_append(owner, "/"@);
    let sl = "/"@;
    assert(sl.len() == 1 && sl.last() == '/');
    assert(sl.drop_last() =~= Seq::<char>::empty());
    assert(crate::providers::urlenc_spec(Seq::<char>::empty()) == Seq::<char>::empty());
    assert(crate::providers::urlenc_spec(sl) =~= Seq::<char>::empty() + "%2F"@);
    assert(crate::providers::urlenc_spec(sl) =~= "%2F"@);
}

// ─── Addresses ────────────────────────────────────────────────────────────────

proof fn lemma_trim_start_ws_prefix(pre: Seq<char>, x: Seq<char>)
    requires
        forall|i: int| 0 <= i < pre.len() ==> crate::text::is_ws(#[trigger] pre[i]),
    ensures
        crate::text::trim_start(pre + x) == crate::text::trim_start(x),
    decreases pre.len(),
{
    if pre.len() == 0 {
        assert(pre + x =~= x);
    } else {
        assert((pre + x)[0] == pre[0]);
        assert((pre + x).drop_first() =~= pre.drop_first() + x);
        assert forall|i: int| 0 <= i < pre.drop_first().len() implies crate::text::is_ws(
            #[trigger] pre.drop_first()[i],
        ) by {
            assert(pre.drop_first()[i] == pre[i + 1]);
        }
        lemma_trim_start_ws_prefix(pre.drop_first(), x);
    }
}

proof fn lemma_trim_end_ws_suffix(x: Seq<char>, post: Seq<char>)
    requires
        forall|i: int| 0 <= i < post.len() ==> crate::text::is_ws(#[trigger] post[i]),
    ensures
        crate::text::trim_end(x + post) == crate::text::trim_end(x),
    decreases post.len(),
{
    if post.len() == 0 {
        assert(x + post =~= x);
    } else {
        assert((x + post).last() == post.last());
        assert((x + post).drop_last() =~= x + post.drop_last());
        lemma_trim_end_ws_suffix(x, post.drop_last());
    }
}

proof fn lemma_trim_end_slashes(x: Seq<char>, sl: Seq<char>)
    requires
        forall|i: int| 0 <= i < sl.len() ==> #[trigger] sl[i] == '/',
    ensures
        crate::text::trim_end_char(x + sl, '/') == crate::text::trim_end_char(x, '/'),
    decreases sl.len(),
{
    if sl.len() == 0 {
        assert(x + sl =~= x);
    } else {
        assert((x + sl).last() == sl.last());
        assert((x + sl).drop_last() =~= x + sl.drop_last());
        lemma_trim_end_slashes(x, sl.drop_last());
    }
}

proof fn lemma_trim_start_len(s: Seq<char>)
    ensures
        crate::text::trim_start(s).len() <= s.len(),
    decreases s.len(),
{
    if s.len() > 0 && crate::text::is_ws(s[0]) {
        lemma_trim_start_len(s.drop_first());
    }
}

proof fn lemma_trim_end_len(s: Seq<char>)
    ensures
        crate::text::trim_end(s).len() <= s.len(),
    decreases s.len(),
{
    if s.len() > 0 && crate::text::is_ws(s.last()) {
        lemma_trim_end_len(s.drop_last());
    }
}

/// A trimmed text starts with no whitespace.
proof fn lemma_trimmed_first(s: Seq<char>)
    requires
        crate::text::trim(s) == s,
        s.len() > 0,
    ensures
        !crate::text::is_ws(s[0]),
{
    if crate::text::is_ws(s[0]) {
        lemma_trim_start_len(s.drop_first());
        lemma_trim_end_len(crate::text::trim_start(s));
    }
}

/// Whitespace around an address, and slashes at its end, never change what it names.
pub proof fn law_parse_url_ignores_padding(
    s: Seq<char>,
    pre: Seq<char>,
    sl: Seq<char>,
    post: Seq<char>,
    g: Option<Seq<char>>,
)
    requires
        crate::text::trim(s) == s,
        forall|i: int| 0 <= i < pre.len() ==> crate::text::is_ws(#[trigger] pre[i]),
        forall|i: int| 0 <= i < sl.len() ==> #[trigger] sl[i] == '/',
        forall|i: int| 0 <= i < post.len() ==> crate::text::is_ws(#[trigger] post[i]),
    ensures
        crate::providers::parse_url_spec(pre + s + sl + post, g) == crate::providers::parse_url_spec(s, g),
{
    let x = s + sl + post;
    assert(pre + s + sl + post =~= pre + x);
    lemma_trim_start_ws_prefix(pre, x);
    if x.len() > 0 {
        if s.len() > 0 {
            lemma_trimmed_first(s);
            assert(x[0] == s[0]);
        } else {
            if sl.len() > 0 {
                assert(x[0] == sl[0]);
            } else {
                assert(x =~= post);
                assert(x[0] == post[0]);
            }
        }
    }
    if s.len() == 0 && sl.len() == 0 {
        // only whitespace: everything trims away
        assert(x =~= post);
        lemma_trim_start_ws_prefix(post, Seq::<char>::empty());
        assert(post + Seq::<char>::empty() =~= post);
        lemma_trim_start_ws_prefix(pre + post, Seq::<char>::empty());
        assert(pre + s + sl + post =~= (pre + post) + Seq::<char>::empty());
        assert(crate::text::trim_start(Seq::<char>::empty()) =~= Seq::<char>::empty());
        assert(s =~= Seq::<char>::empty());
    } else {
        assert(crate::text::trim_start(x) == x);
        assert(x =~= (s + sl) + post);
        lemma_trim_end_ws_suffix(s + sl, post);
        if sl.len() > 0 {
            assert((s + sl).last() == sl.last());
            assert(crate::text::trim_end(s + sl) == s + sl);
        } else {
            assert(s + sl =~= s);
            assert(crate::text::trim_end(s) == s);
        }
        lemma_trim_end_slashes(s, sl);
    }
}

// ─── Listing ──────────────────────────────────────────────────────────────────

/// Two lists, each strictly ordered by the same irreflexive, transitive relation and holding
/// the same values, are the same list.
proof fn lemma_sorted_same(x: Seq<int>, y: Seq<int>, lt: spec_fn(int, int) -> bool)
    requires
        forall|i: int, j: int| 0 <= i < j < x.len() ==> lt(#[trigger] x[i], #[trigger] x[j]),
        forall|i: int, j: int| 0 <= i < j < y.len() ==> lt(#[trigger] y[i], #[trigger] y[j]),
        forall|e: int| #![trigger x.contains(e)] #![trigger y.contains(e)] x.contains(e) <==> y.contains(e),
        forall|e: int| !#[trigger] lt(e, e),
        forall|e1: int, e2: int, e3: int| #[trigger] lt(e1, e2) && #[trigger] lt(e2, e3) ==> lt(e1, e3),
    ensures
        x == y,
    decreases x.len(),
{
    if x.len() == 0 {
        if y.len() > 0 {
            assert(y.contains(y[0]));
        }
        assert(x =~= y);
    } else {
        assert(x.contains(x[0]));
        let j = choose|j: int| 0 <= j < y.len() && y[j] == x[0];
        assert(y.contains(y[0]));
        let i = choose|i: int| 0 <= i < x.len() && x[i] == y[0];
        if j > 0 {
            assert(lt(y[0], y[j]));
            if i > 0 {
                assert(lt(x[0], x[i]));
            }
        }
        assert(y[0] == x[0]);
        let xs = x.drop_first();
        let ys = y.drop_first();
        assert forall|e: int| #![trigger xs.contains(e)] #![trigger ys.contains(e)] xs.contains(e) <==> ys.contains(e) by {
            if xs.contains(e) {
                let k = choose|k: int| 0 <= k < xs.len() && xs[k] == e;
                assert(x[k + 1] == e);
                assert(lt(x[0], x[k + 1]));
                assert(x.contains(e));
                let m = choose|m: int| 0 <= m < y.len() && y[m] == e;
                assert(m != 0);
                assert(ys[m - 1] == e);
            }
            if ys.contains(e) {
                let k = choose|k: int| 0 <= k < ys.len() && ys[k] == e;
                assert(y[k + 1] == e);
                assert(lt(y[0], y[k + 1]));
                assert(y.contains(e));
                let m = choose|m: int| 0 <= m < x.len() && x[m] == e;
                assert(m != 0);
                assert(xs[m - 1] == e);
            }
        }
        assert forall|a: int, b: int| 0 <= a < b < xs.len() implies lt(#[trigger] xs[a], #[trigger] xs[b]) by {
            assert(xs[a] == x[a + 1] && xs[b] == x[b + 1]);
        }
        assert forall|a: int, b: int| 0 <= a < b < ys.len() implies lt(#[trigger] ys[a], #[trigger] ys[b]) by {
            assert(ys[a] == y[a + 1] && ys[b] == y[b + 1]);
        }
        lemma_sorted_same(xs, ys, lt);
        assert(x =~= seq![x[0]] + xs);
        assert(y =~= seq![y[0]] + ys);
    }
}

/// The listing order is a strict order.
proof fn lemma_shown_before_order(a: App)
    ensures
        forall|i: int| !#[trigger] crate::app_filter::shown_before(a, i, i),
        forall|i: int, j: int, k: int|
            #[trigger] crate::app_filter::shown_before(a, i, j) && #[trigger] crate::app_filter::shown_before(a, j, k)
                ==> crate::app_filter::shown_before(a, i, k),
{
    assert forall|i: int| !#[trigger] crate::app_filter::shown_before(a, i, i) by {
        crate::sorting::lemma_key_irrefl(crate::app_filter::mode_key(a, i));
    }
    assert forall|i: int, j: int, k: int|
        #[trigger] crate::app_filter::shown_before(a, i, j) && #[trigger] crate::app_filter::shown_before(a, j, k)
            implies crate::app_filter::shown_before(a, i, k) by {
        let ki = crate::app_filter::mode_key(a, i);
        let kj = crate::app_filter::mode_key(a, j);
        let kk = crate::app_filter::mode_key(a, k);
        if crate::sorting::key_lt(ki, kj) && crate::sorting::key_lt(kj, kk) {
            crate::sorting::lemma_key_trans(ki, kj, kk);
        }
    }
}

pub open spec fn listed_ids(f: Seq<crate::app::FilteredItem>) -> Seq<int> {
    f.map_values(|it: crate::app::FilteredItem| it.idx as int)
}

/// Rebuilding the listing a second time, with nothing changed in between, gives the same
/// listing — the same files in the same order with the same match data — and keeps the
/// highlighted row.
pub proof fn law_rebuild_twice(a: App, b: App, c: App)
    requires
        crate::app_filter::rebuilt(a, b),
        crate::app_filter::rebuilt(b, c),
    ensures
        c.filtered@.len() == b.filtered@.len(),
        forall|k: int| 0 <= k < b.filtered@.len() ==> (#[trigger] c.filtered@[k]).idx == b.filtered@[k].idx,
        forall|k: int| 0 <= k < b.filtered@.len() ==> match ((#[trigger] c.filtered@[k]).fuzzy, b.filtered@[k].fuzzy) {
            (Some(m1), Some(m2)) => m1.score == m2.score && m1.positions@ == m2.positions@,
            (None, None) => true,
            _ => false,
        },
        c.list_sel == b.list_sel,
        c.files == b.files,
{
    let fb = b.filtered@;
    let fc = c.filtered@;
    let x = listed_ids(fb);
    let y = listed_ids(fc);
    let lt = |i: int, j: int| crate::app_filter::shown_before(a, i, j);
    lemma_shown_before_order(a);
    assert forall|i: int| #[trigger] crate::app_filter::shown(b, i) == crate::app_filter::shown(a, i) by {}
    assert forall|i: int, j: int| 0 <= i < j < x.len() implies lt(#[trigger] x[i], #[trigger] x[j]) by {
        assert(crate::app_filter::shown_before(a, fb[i].idx as int, fb[j].idx as int));
    }
    assert forall|i: int, j: int| 0 <= i < j < y.len() implies lt(#[trigger] y[i], #[trigger] y[j]) by {
        assert(crate::app_filter::shown_before(b, fc[i].idx as int, fc[j].idx as int));
    }
    assert forall|e: int| #![trigger x.contains(e)] #![trigger y.contains(e)] x.contains(e) <==> y.contains(e) by {
        if x.contains(e) {
            let k = choose|k: int| 0 <= k < x.len() && x[k] == e;
            assert(crate::app_filter::shown(a, fb[k].idx as int));
            assert(crate::app_filter::shown(b, e));
            let m = choose|m: int| 0 <= m < fc.len() && fc[m].idx == e;
            assert(y[m] == e);
        }
        if y.contains(e) {
            let k = choose|k: int| 0 <= k < y.len() && y[k] == e;
            assert(crate::app_filter::shown(b, fc[k].idx as int));
            assert(crate::app_filter::shown(a, e));
            let m = choose|m: int| 0 <= m < fb.len() && fb[m].idx == e;
            assert(x[m] == e);
        }
    }
    assert forall|e: int| !#[trigger] lt(e, e) by {}
    assert forall|e1: int, e2: int, e3: int| #[trigger] lt(e1, e2) && #[trigger] lt(e2, e3) implies lt(e1, e3) by {
        assert(crate::app_filter::shown_before(a, e1, e2));
        assert(crate::app_filter::shown_before(a, e2, e3));
    }
    lemma_sorted_same(x, y, lt);
    assert(fc.len() == fb.len()) by {
        assert(x.len() == fb.len() && y.len() == fc.len());
    }
    assert forall|k: int| 0 <= k < fb.len() implies (#[trigger] fc[k]).idx == fb[k].idx by {
        assert(x[k] == y[k]);
    }
    assert forall|k: int| 0 <= k < fb.len() implies match ((#[trigger] fc[k]).fuzzy, fb[k].fuzzy) {
        (Some(m1), Some(m2)) => m1.score == m2.score && m1.positions@ == m2.positions@,
        (None, None) => true,
        _ => false,
    } by {
        assert(x[k] == y[k]);
        assert(crate::app_filter::fuzzy_ok(a, fb[k]));
        assert(crate::app_filter::fuzzy_ok(b, fc[k]));
        if let (Some(m1), Some(m2)) = (fc[k].fuzzy, fb[k].fuzzy) {
            let p1 = crate::fuzzy::as_ints(m1.positions@);
            let p2 = crate::fuzzy::as_ints(m2.positions@);
            assert(p1 == p2);
            assert(m1.positions@ =~= m2.positions@) by {
                assert forall|t: int| 0 <= t < m1.positions@.len() implies m1.positions@[t] == m2.positions@[t] by {
                    assert(p1[t] == p2[t]);
                }
            }
        }
    }
}

} // verus!
