//! Which listing entries the browser shows, and in what order.
use vstd::prelude::*;
use crate::app::{App, FilteredItem, SearchMode, SortMode};
use crate::fuzzy::{FuzzyMatch, fuzzy_filter, item_match, as_ints};
use crate::providers::{Node, NodeKind, file_ext};
use crate::sorting::{SortKey, KeyV, key_lt, stable_order, entry_lt, lists};
use crate::text::{
    after_last, lowercase, to_lower, chars_of, chars_eq, string_of, lower_chars, all_ascii, ascii_lowercase,
    lemma_ascii_lowercase_idem,
};

verus! {

/// The text the search query is matched against for file `i`.
pub open spec fn search_key(a: App, i: int) -> Seq<char> {
    match a.search_mode {
        SearchMode::Path => a.files@[i].path@,
        SearchMode::Ext => after_last(a.files@[i].name@, '.'),
        _ => a.files@[i].name@,
    }
}

/// The lowercased search query.
pub open spec fn query(a: App) -> Seq<char> {
    lowercase(a.search_query@)
}

pub open spec fn size_or0(n: Node) -> u64 {
    match n.size {
        Some(s) => s,
        None => 0,
    }
}

/// File `i` passes the extension and size filters: a file is listed only when larger than
/// the size threshold (directories always pass).
pub open spec fn passes(a: App, i: int) -> bool {
    let f = a.files@[i];
    &&& (a.ext_filter matches Some(e) ==> !(f.kind == NodeKind::File && lowercase(
        after_last(f.name@, '.'),
    ) != lowercase(e@)))
    &&& (a.min_size matches Some(m) ==> !(f.kind == NodeKind::File && size_or0(f) <= m))
}

/// File `i` is listed: it passes the filters and matches the query (an empty query matches all).
pub open spec fn shown(a: App, i: int) -> bool {
    &&& 0 <= i < a.files@.len()
    &&& passes(a, i)
    &&& (query(a).len() == 0 || item_match(search_key(a, i), query(a)) is Some)
}

pub open spec fn score_of(a: App, i: int) -> int {
    match item_match(search_key(a, i), query(a)) {
        Some((s, _)) => s,
        None => 0,
    }
}

/// Order before sorting: by position, or with a query by score (best first) and then position.
pub open spec fn match_before(a: App, i: int, j: int) -> bool {
    if query(a).len() == 0 {
        i < j
    } else {
        score_of(a, i) > score_of(a, j) || (score_of(a, i) == score_of(a, j) && i < j)
    }
}

/// Sort key of file `i` under the current sort mode.
pub open spec fn mode_key(a: App, i: int) -> KeyV {
    let f = a.files@[i];
    match a.sort_mode {
        SortMode::Name => (0u64, lowercase(f.name@), Seq::<char>::empty()),
        SortMode::Size => ((u64::MAX - size_or0(f)) as u64, Seq::<char>::empty(), Seq::<char>::empty()),
        SortMode::Ext => (0u64, lowercase(after_last(f.name@, '.')), lowercase(f.name@)),
        SortMode::Default => (0u64, Seq::<char>::empty(), Seq::<char>::empty()),
    }
}

/// Order of the listing: the provider's order refined by the query (`Default`), or a
/// stable sort of that by name, size (largest first) or extension then name.
pub open spec fn shown_before(a: App, i: int, j: int) -> bool {
    if a.sort_mode == SortMode::Default {
        match_before(a, i, j)
    } else {
        key_lt(mode_key(a, i), mode_key(a, j)) || (mode_key(a, i) == mode_key(a, j) && match_before(
            a,
            i,
            j,
        ))
    }
}

/// The match data carried by a listed item.
pub open spec fn fuzzy_ok(a: App, it: FilteredItem) -> bool {
    if query(a).len() == 0 {
        it.fuzzy is None
    } else {
        it.fuzzy matches Some(m) && item_match(search_key(a, it.idx as int), query(a)) == Some(
            (m.score as int, as_ints(m.positions@)),
        )
    }
}

/// `f` lists exactly the shown files of `a`, each once, in listing order.
pub open spec fn filtered_ok(a: App, f: Seq<FilteredItem>) -> bool {
    &&& forall|k: int| 0 <= k < f.len() ==> shown(a, (#[trigger] f[k]).idx as int) && fuzzy_ok(a, f[k])
    &&& forall|i: int| #[trigger] shown(a, i) ==> exists|k: int| 0 <= k < f.len() && f[k].idx == i
    &&& forall|x: int, y: int|
        0 <= x < y < f.len() ==> shown_before(a, (#[trigger] f[x]).idx as int, (#[trigger] f[y]).idx as int)
}

/// Highlighted row after a rebuild: the previous row, clamped to the list.
pub open spec fn clamped_sel(old: Option<usize>, len: int) -> Option<usize> {
    if len == 0 {
        None
    } else {
        let cur = match old {
            Some(c) => c as int,
            None => 0,
        };
        Some((if cur < len - 1 {
            cur
        } else {
            len - 1
        }) as usize)
    }
}

/// `new` is `old` with the listing recomputed.
pub open spec fn rebuilt(old: App, new: App) -> bool {
    &&& new == (App { filtered: new.filtered, list_sel: new.list_sel, ..old })
    &&& filtered_ok(old, new.filtered@)
    &&& new.list_sel == clamped_sel(old.list_sel, new.filtered@.len() as int)
    &&& new.filtered@.len() <= old.files@.len()
}

fn clone_match(m: &FuzzyMatch) -> (r: FuzzyMatch)
    ensures
        r.score == m.score,
        r.positions@ == m.positions@,
{
    m.clone()
}

impl App {
    fn search_name(&self, i: usize) -> (r: String)
        requires
            i < self.files.len(),
        ensures
            r@ == search_key(*self, i as int),
    {
        match self.search_mode {
            SearchMode::Path => self.files[i].path.clone(),
            SearchMode::Ext => string_of(chars_of(file_ext(self.files[i].name.as_str())).as_slice()),
            _ => self.files[i].name.clone(),
        }
    }

    fn passes_exec(&self, i: usize, ext: &Option<Vec<char>>) -> (r: bool)
        requires
            i < self.files.len(),
            match self.ext_filter {
                Some(e) => ext matches Some(x) && x@ == lowercase(e@),
                None => ext is None,
            },
        ensures
            r == passes(*self, i as int),
    {
        let f = &self.files[i];
        if let Some(e) = ext {
            if f.kind == NodeKind::File {
                let fe = lower_chars(&chars_of(file_ext(f.name.as_str())));
                if !chars_eq(&fe, e) {
                    return false;
                }
            }
        }
        if let Some(min) = self.min_size {
            if f.kind == NodeKind::File {
                let s = match f.size {
                    Some(s) => s,
                    None => 0,
                };
                if s <= min {
                    return false;
                }
            }
        }
        true
    }

    fn mode_sort_key(&self, i: usize) -> (k: SortKey)
        requires
            i < self.files.len(),
        ensures
            k@ == mode_key(*self, i as int),
    {
        let f = &self.files[i];
        match self.sort_mode {
            SortMode::Name => SortKey {
                rank: 0,
                primary: lower_chars(&chars_of(f.name.as_str())),
                secondary: Vec::new(),
            },
            SortMode::Size => {
                let s = match f.size {
                    Some(s) => s,
                    None => 0,
                };
                SortKey { rank: u64::MAX - s, primary: Vec::new(), secondary: Vec::new() }
            },
            SortMode::Ext => SortKey {
                rank: 0,
                primary: lower_chars(&chars_of(file_ext(f.name.as_str()))),
                secondary: lower_chars(&chars_of(f.name.as_str())),
            },
            SortMode::Default => SortKey { rank: 0, primary: Vec::new(), secondary: Vec::new() },
        }
    }

    /// Recompute the listing from the files, the query, the filters and the sort mode.
    #[verifier::spinoff_prover]
    #[verifier::rlimit(40)]
    pub fn rebuild_filter(&mut self)
        ensures
            rebuilt(*old(self), *final(self)),
            all_ascii(old(self).search_query@) ==> query(*old(self)) == ascii_lowercase(old(self).search_query@)
                && lowercase(query(*old(self))) == query(*old(self)),
            old(self).ext_filter matches Some(e) ==> (all_ascii(e@) ==> lowercase(e@) == ascii_lowercase(e@)),
            query(*old(self)).len() > 0 ==> forall|i: int|
                0 <= i < old(self).files@.len() && all_ascii(#[trigger] search_key(*old(self), i)) ==> lowercase(
                    search_key(*old(self), i),
                ) == ascii_lowercase(search_key(*old(self), i)),
    {
        let ext: Option<Vec<char>> = match &self.ext_filter {
            Some(e) => Some(chars_of(to_lower(e.as_str()).as_str())),
            None => None,
        };
        let q = to_lower(self.search_query.as_str());
        let mut names: Vec<String> = Vec::new();
        let mut i: usize = 0;
        while i < self.files.len()
            invariant
                i <= self.files.len(),
                names.len() == i,
                forall|j: int| 0 <= j < i ==> (#[trigger] names@[j])@ == search_key(*self, j),
            decreases self.files.len() - i,
        {
            names.push(self.search_name(i));
            i += 1;
        }
        let scored = fuzzy_filter(names.as_slice(), q.as_str());
        let ghost a = *self;
        proof {
            assert(q@ == query(a));
            assert forall|j: int| 0 <= j < names.len() implies #[trigger] names@[j]@ == search_key(a, j) by {}
            if all_ascii(a.search_query@) {
                lemma_ascii_lowercase_idem(a.search_query@);
            }
            assert(query(a).len() > 0 ==> forall|i: int|
                0 <= i < a.files@.len() && all_ascii(#[trigger] search_key(a, i)) ==> lowercase(search_key(a, i))
                    == ascii_lowercase(search_key(a, i))) by {
                if query(a).len() > 0 {
                    assert forall|i: int|
                        0 <= i < a.files@.len() && all_ascii(#[trigger] search_key(a, i)) implies lowercase(
                            search_key(a, i),
                        ) == ascii_lowercase(search_key(a, i)) by {
                        assert(names@[i]@ == search_key(a, i));
                    }
                }
            }
        }
        // filter, keeping the order of `scored`
        let mut kept: Vec<FilteredItem> = Vec::new();
        let ghost mut from: Seq<int> = Seq::empty();
        let q_empty = q.as_str().is_empty();
        let mut k: usize = 0;
        while k < scored.len()
            invariant
                a == *self,
                q@ == query(a),
                q_empty == (q@.len() == 0),
                names.len() == a.files@.len(),
                forall|j: int| 0 <= j < names.len() ==> #[trigger] names@[j]@ == search_key(a, j),
                match a.ext_filter {
                    Some(e) => ext matches Some(x) && x@ == lowercase(e@),
                    None => ext is None,
                },
                scored.len() <= names.len(),
                kept.len() <= k,
                q@.len() == 0 ==> scored.len() == names.len() && forall|t: int|
                    0 <= t < scored.len() ==> (#[trigger] scored[t]).0 == t,
                q@.len() > 0 ==> {
                    &&& forall|t: int|
                        0 <= t < scored.len() ==> (#[trigger] scored[t]).0 < names.len() && item_match(
                            names@[scored[t].0 as int]@,
                            q@,
                        ) == Some((scored[t].1.score as int, as_ints(scored[t].1.positions@)))
                    &&& forall|j: int|
                        0 <= j < names.len() && #[trigger] item_match(names@[j]@, q@) is Some ==> exists|t: int|
                            0 <= t < scored.len() && scored[t].0 == j
                    &&& forall|x: int, y: int|
                        0 <= x < y < scored.len() ==> (#[trigger] scored[x]).1.score > (#[trigger] scored[y]).1.score
                            || (scored[x].1.score == scored[y].1.score && scored[x].0 < scored[y].0)
                },
                k <= scored.len(),
                kept.len() == from.len(),
                forall|t: int| 0 <= t < from.len() ==> 0 <= #[trigger] from[t] < k,
                forall|x: int, y: int| 0 <= x < y < from.len() ==> #[trigger] from[x] < #[trigger] from[y],
                forall|t: int|
                    0 <= t < kept.len() ==> (#[trigger] kept[t]).idx == scored[from[t]].0 && shown(
                        a,
                        kept[t].idx as int,
                    ) && fuzzy_ok(a, kept[t]),
                forall|t: int|
                    0 <= t < k && shown(a, scored[t].0 as int) ==> exists|u: int|
                        0 <= u < from.len() && #[trigger] from[u] == t,
            decreases scored.len() - k,
        {
            let idx = scored[k].0;
            if self.passes_exec(idx, &ext) {
                let fuzzy = if q_empty {
                    None
                } else {
                    Some(clone_match(&scored[k].1))
                };
                let ghost old_from = from;
                kept.push(FilteredItem { idx, fuzzy });
                proof {
                    from = from.push(k as int);
                    assert forall|t: int|
                        0 <= t < k + 1 && shown(a, scored[t].0 as int) implies exists|u: int|
                            0 <= u < from.len() && #[trigger] from[u] == t by {
                        if t < k {
                            let u = choose|u: int| 0 <= u < old_from.len() && old_from[u] == t;
                            assert(from[u] == t);
                        } else {
                            assert(from[from.len() - 1] == t);
                        }
                    }
                }
            }
            k += 1;
        }
        // every shown file was kept
        proof {
            assert forall|i: int| #[trigger] shown(a, i) implies exists|t: int|
                0 <= t < kept.len() && kept[t].idx == i by {
                if q@.len() == 0 {
                    assert(scored[i].0 == i);
                    let u = choose|u: int| 0 <= u < from.len() && from[u] == i;
                    assert(kept[u].idx == i);
                } else {
                    assert(item_match(names@[i]@, q@) is Some);
                    let t = choose|t: int| 0 <= t < scored.len() && scored[t].0 == i;
                    let u = choose|u: int| 0 <= u < from.len() && from[u] == t;
                    assert(kept[u].idx == i);
                }
            }
            assert forall|x: int, y: int| 0 <= x < y < kept.len() implies match_before(
                a,
                (#[trigger] kept[x]).idx as int,
                (#[trigger] kept[y]).idx as int,
            ) by {
                let fx = from[x];
                let fy = from[y];
                assert(fx < fy);
                if q@.len() > 0 {
                    let kx = kept[x];
                    let ky = kept[y];
                    assert(score_of(a, kx.idx as int) == scored[fx].1.score);
                    assert(score_of(a, ky.idx as int) == scored[fy].1.score);
                }
            }
        }
        // Apply sort within filtered
        if self.sort_mode != SortMode::Default {
            let mut keys: Vec<SortKey> = Vec::new();
            let mut t: usize = 0;
            while t < kept.len()
                invariant
                    a == *self,
                    t <= kept.len(),
                    keys.len() == t,
                    forall|u: int| 0 <= u < kept.len() ==> shown(a, (#[trigger] kept[u]).idx as int),
                    forall|u: int| 0 <= u < t ==> #[trigger] keys[u]@ == mode_key(a, kept[u].idx as int),
                decreases kept.len() - t,
            {
                keys.push(self.mode_sort_key(kept[t].idx));
                t += 1;
            }
            let ord = stable_order(&keys);
            let ghost kv = keys@.map_values(|k: SortKey| k@);
            let mut sorted: Vec<FilteredItem> = Vec::new();
            let mut t: usize = 0;
            while t < ord.len()
                invariant
                    t <= ord.len(),
                    ord.len() == kept.len(),
                    forall|u: int| 0 <= u < ord.len() ==> #[trigger] ord@[u] < kept.len(),
                    sorted.len() == t,
                    forall|u: int|
                        0 <= u < t ==> (#[trigger] sorted[u]).idx == kept[ord@[u] as int].idx && fuzzy_ok(
                            a,
                            sorted[u],
                        ) && sorted[u].fuzzy is Some == kept[ord@[u] as int].fuzzy is Some,
                    forall|u: int| 0 <= u < kept.len() ==> fuzzy_ok(a, #[trigger] kept[u]),
                decreases ord.len() - t,
            {
                let src = &kept[ord[t]];
                let fuzzy = match &src.fuzzy {
                    Some(m) => Some(clone_match(m)),
                    None => None,
                };
                sorted.push(FilteredItem { idx: src.idx, fuzzy });
                t += 1;
            }
            proof {
                assert forall|u: int| 0 <= u < sorted.len() implies shown(a, (#[trigger] sorted[u]).idx as int) && fuzzy_ok(a, sorted[u]) by {
                    assert(sorted[u].idx == kept[ord@[u] as int].idx);
                }
                assert forall|i: int| #[trigger] shown(a, i) implies exists|u: int|
                    0 <= u < sorted.len() && sorted[u].idx == i by {
                    let p = choose|p: int| 0 <= p < kept.len() && kept[p].idx == i;
                    assert(lists(ord@, p));
                    let u = choose|u: int| 0 <= u < ord.len() && ord@[u] == p;
                    assert(sorted[u].idx == i);
                }
                assert forall|x: int, y: int| 0 <= x < y < sorted.len() implies shown_before(
                    a,
                    (#[trigger] sorted[x]).idx as int,
                    (#[trigger] sorted[y]).idx as int,
                ) by {
                    let ox = ord@[x] as int;
                    let oy = ord@[y] as int;
                    assert(entry_lt(kv, ox, oy));
                    assert(kv[ox] == keys[ox]@ && kv[oy] == keys[oy]@);
                    if !key_lt(kv[ox], kv[oy]) {
                        assert(ox < oy);
                        assert(match_before(a, kept[ox].idx as int, kept[oy].idx as int));
                    }
                }
            }
            self.filtered = sorted;
        } else {
            self.filtered = kept;
        }
        let cur = match self.list_sel {
            Some(c) => c,
            None => 0,
        };
        if self.filtered.len() == 0 {
            self.list_sel = None;
        } else {
            let last = self.filtered.len() - 1;
            self.list_sel = Some(if cur < last { cur } else { last });
        }
    }
}

} // verus!
