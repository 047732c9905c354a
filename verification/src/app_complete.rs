//! Suggestions for the repository input on the home screen.
use vstd::prelude::*;
use crate::app::{App, position_of};
use crate::config::HistoryEntry;
use crate::text::{
    chars_of, chars_eq_str, string_of, push_str, lowercase, lower_chars, trim, trim_chars, starts_with,
    starts_with_chars, contains, contains_chars,
};

verus! {

/// Most suggestions gathered from the history, and the point past which URL prefixes are
/// no longer offered.
pub open spec fn max_suggestions() -> int {
    6
}

/// Host shown for a provider name recorded in the history.
pub open spec fn host_of(provider: Seq<char>) -> Seq<char> {
    if provider == "gitlab"@ {
        "gitlab.com"@
    } else if provider == "codeberg"@ {
        "codeberg.org"@
    } else if provider == "gitea"@ {
        "gitea.com"@
    } else {
        "github.com"@
    }
}

/// `owner/repo` of a history entry.
pub open spec fn short_name(h: HistoryEntry) -> Seq<char> {
    h.owner@ + "/"@ + h.repo@
}

/// `host/owner/repo` of a history entry.
pub open spec fn full_name(h: HistoryEntry) -> Seq<char> {
    host_of(h.provider@) + "/"@ + h.owner@ + "/"@ + h.repo@
}

/// The query occurs in the lowercased candidate.
pub open spec fn cand_matches(c: Seq<char>, q: Seq<char>) -> bool {
    starts_with(lowercase(c), q) || contains(lowercase(c), q)
}

pub open spec fn add_cand(acc: Seq<Seq<char>>, c: Seq<char>, q: Seq<char>) -> Seq<Seq<char>> {
    if cand_matches(c, q) && !acc.contains(c) {
        acc.push(c)
    } else {
        acc
    }
}

/// Suggestions from history entries, both names of each entry in turn, stopping once
/// there are enough.
pub open spec fn hist_sugg(hist: Seq<HistoryEntry>, q: Seq<char>, acc: Seq<Seq<char>>) -> Seq<Seq<char>>
    decreases hist.len(),
{
    if hist.len() == 0 {
        acc
    } else {
        let acc2 = add_cand(add_cand(acc, short_name(hist[0]), q), full_name(hist[0]), q);
        if acc2.len() >= max_suggestions() {
            acc2
        } else {
            hist_sugg(hist.drop_first(), q, acc2)
        }
    }
}

pub open spec fn url_prefixes() -> Seq<Seq<char>> {
    seq![
        "github.com/"@,
        "gitlab.com/"@,
        "codeberg.org/"@,
        "https://github.com/"@,
        "https://gitlab.com/"@,
        "https://codeberg.org/"@,
    ]
}

/// URL prefixes that begin with the query, until there are enough suggestions.
pub open spec fn prefix_sugg(ps: Seq<Seq<char>>, q: Seq<char>, acc: Seq<Seq<char>>) -> Seq<Seq<char>>
    decreases ps.len(),
{
    if ps.len() == 0 {
        acc
    } else if starts_with(ps[0], q) && !acc.contains(ps[0]) {
        let acc2 = acc.push(ps[0]);
        if acc2.len() >= max_suggestions() {
            acc2
        } else {
            prefix_sugg(ps.drop_first(), q, acc2)
        }
    } else {
        prefix_sugg(ps.drop_first(), q, acc)
    }
}

/// Suggestions for the query `q` (already trimmed and lowercased).
pub open spec fn suggestions_for(hist: Seq<HistoryEntry>, q: Seq<char>) -> Seq<Seq<char>> {
    let s1 = hist_sugg(hist, q, Seq::empty());
    if s1.len() < max_suggestions() {
        prefix_sugg(url_prefixes(), q, s1)
    } else {
        s1
    }
}

pub open spec fn string_views(v: Seq<String>) -> Seq<Seq<char>> {
    v.map_values(|s: String| s@)
}

/// `b` is `a` with suggestions recomputed for the current input.
pub open spec fn autocomplete_rel(a: App, b: App) -> bool {
    let q = lowercase(trim(a.input@));
    let s = if q.len() == 0 {
        Seq::empty()
    } else {
        suggestions_for(a.history@, q)
    };
    &&& b == (App {
        autocomplete_suggestions: b.autocomplete_suggestions,
        autocomplete_idx: if s.len() == 0 {
            None
        } else {
            match a.autocomplete_idx {
                Some(i) => if i >= s.len() {
                    None
                } else {
                    Some(i)
                },
                None => None,
            }
        },
        ..a
    })
    &&& string_views(b.autocomplete_suggestions@) == s
}

fn contains_string(v: &Vec<String>, c: &String) -> (r: bool)
    ensures
        r == string_views(v@).contains(c@),
{
    match position_of(v, c) {
        Some(i) => {
            assert(string_views(v@)[i as int] == c@);
            true
        },
        None => {
            assert forall|j: int| 0 <= j < string_views(v@).len() implies string_views(v@)[j] != c@ by {
                assert(string_views(v@)[j] == v@[j]@);
            }
            false
        },
    }
}

fn add_cand_exec(acc: &mut Vec<String>, c: String, q: &Vec<char>)
    ensures
        string_views(final(acc)@) == add_cand(string_views(old(acc)@), c@, q@),
{
    let l = lower_chars(&chars_of(c.as_str()));
    if (starts_with_chars(&l, q) || contains_chars(&l, q)) && !contains_string(acc, &c) {
        let ghost before = acc@;
        acc.push(c);
        proof {
            assert(string_views(acc@) =~= string_views(before).push(c@));
        }
    }
}

pub(crate) fn host_exec(provider: &String) -> (r: &'static str)
    ensures
        r@ == host_of(provider@),
{
    let p = chars_of(provider.as_str());
    if chars_eq_str(&p, "gitlab") {
        "gitlab.com"
    } else if chars_eq_str(&p, "codeberg") {
        "codeberg.org"
    } else if chars_eq_str(&p, "gitea") {
        "gitea.com"
    } else {
        "github.com"
    }
}

fn history_suggestions(history: &Vec<HistoryEntry>, q: &Vec<char>) -> (r: Vec<String>)
    ensures
        string_views(r@) == hist_sugg(history@, q@, Seq::empty()),
{
    let mut suggestions: Vec<String> = Vec::new();
    let ghost hist = history@;
    let mut k: usize = 0;
    proof {
        assert(hist.skip(0) =~= hist);
        assert(string_views(suggestions@) =~= Seq::<Seq<char>>::empty());
    }
    while k < history.len() && suggestions.len() < 6
        invariant
            k <= history.len(),
            hist == history@,
            string_views(suggestions@).len() == suggestions@.len(),
            hist_sugg(hist, q@, Seq::empty()) == (if suggestions@.len() < max_suggestions() {
                hist_sugg(hist.skip(k as int), q@, string_views(suggestions@))
            } else {
                string_views(suggestions@)
            }),
        decreases history.len() - k,
    {
        let h = &history[k];
        let mut short = chars_of(h.owner.as_str());
        push_str(&mut short, "/");
        push_str(&mut short, h.repo.as_str());
        let mut full = chars_of(host_exec(&h.provider));
        push_str(&mut full, "/");
        push_str(&mut full, h.owner.as_str());
        push_str(&mut full, "/");
        push_str(&mut full, h.repo.as_str());
        proof {
            assert(short@ =~= short_name(hist[k as int]));
            assert(full@ =~= full_name(hist[k as int]));
            assert(hist.skip(k as int)[0] == hist[k as int]);
            assert(hist.skip(k as int).drop_first() =~= hist.skip(k + 1));
        }
        add_cand_exec(&mut suggestions, string_of(short.as_slice()), q);
        add_cand_exec(&mut suggestions, string_of(full.as_slice()), q);
        proof {
            assert(string_views(suggestions@).len() == suggestions@.len());
        }
        k += 1;
    }
    proof {
        if k == history.len() && suggestions@.len() < 6 {
            assert(hist.skip(k as int) =~= Seq::<HistoryEntry>::empty());
        }
    }
    suggestions
}

fn add_prefixes(suggestions: &mut Vec<String>, q: &Vec<char>)
    requires
        old(suggestions)@.len() < 6,
    ensures
        string_views(final(suggestions)@) == prefix_sugg(url_prefixes(), q@, string_views(old(suggestions)@)),
{
    let prefixes = ["github.com/", "gitlab.com/", "codeberg.org/", "https://github.com/", "https://gitlab.com/", "https://codeberg.org/"];
    proof {
        reveal_strlit("github.com/");
        reveal_strlit("gitlab.com/");
        reveal_strlit("codeberg.org/");
        reveal_strlit("https://github.com/");
        reveal_strlit("https://gitlab.com/");
        reveal_strlit("https://codeberg.org/");
    }
    let ghost ps = url_prefixes();
    let ghost s1 = string_views(suggestions@);
    let mut j: usize = 0;
    proof {
        assert(ps.skip(0) =~= ps);
        assert(string_views(suggestions@).len() == suggestions@.len());
    }
    while j < 6 && suggestions.len() < 6
        invariant
            j <= 6,
            ps == url_prefixes(),
            forall|t: int| 0 <= t < 6 ==> (#[trigger] prefixes@[t])@ == ps[t],
            string_views(suggestions@).len() == suggestions@.len(),
            prefix_sugg(ps, q@, s1) == (if suggestions@.len() < 6 {
                prefix_sugg(ps.skip(j as int), q@, string_views(suggestions@))
            } else {
                string_views(suggestions@)
            }),
        decreases 6 - j,
    {
        let pv = chars_of(prefixes[j]);
        let ps_j = string_of(pv.as_slice());
        proof {
            assert(ps.skip(j as int)[0] == ps[j as int]);
            assert(ps.skip(j as int).drop_first() =~= ps.skip(j + 1));
        }
        if starts_with_chars(&pv, q) && !contains_string(suggestions, &ps_j) {
            let ghost before = suggestions@;
            suggestions.push(ps_j);
            proof {
                assert(string_views(suggestions@) =~= string_views(before).push(ps[j as int]));
            }
        }
        j += 1;
    }
    proof {
        if j == 6 && suggestions@.len() < 6 {
            assert(ps.skip(6) =~= Seq::<Seq<char>>::empty());
        }
    }
}

impl App {
    /// Recompute the suggestions for the current input.
    pub fn update_autocomplete(&mut self)
        ensures
            autocomplete_rel(*old(self), *final(self)),
    {
        let q = lower_chars(&trim_chars(&chars_of(self.input.as_str())));
        if q.len() == 0 {
            self.autocomplete_suggestions = Vec::new();
            self.autocomplete_idx = None;
            proof {
                assert(string_views(self.autocomplete_suggestions@) =~= Seq::<Seq<char>>::empty());
            }
            return;
        }
        let mut suggestions = history_suggestions(&self.history, &q);
        if suggestions.len() < 6 {
            add_prefixes(&mut suggestions, &q);
        }
        self.autocomplete_suggestions = suggestions;
        if self.autocomplete_suggestions.len() == 0 {
            self.autocomplete_idx = None;
        } else if let Some(idx) = self.autocomplete_idx {
            if idx >= self.autocomplete_suggestions.len() {
                self.autocomplete_idx = None;
            }
        }
    }
}

} // verus!
