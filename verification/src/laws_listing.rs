//! What the browser listing holds and in what order, after it is rebuilt.
use vstd::prelude::*;
use crate::app::{App, SearchMode, SortMode};
use crate::app_filter::{rebuilt, passes, query, shown, shown_before, mode_key};
use crate::fuzzy::{item_match, is_subsequence, lemma_greedy_iff_subsequence};
use crate::text::{lowercase, after_last, lex_lt, lemma_lex_irrefl, lemma_lex_trans};

verus! {

/// A file is listed after a rebuild: some row of the listing shows it.
pub open spec fn is_listed(b: App, i: int) -> bool {
    exists|k: int| 0 <= k < b.filtered@.len() && b.filtered@[k].idx == i
}

/// Fuzzy matching succeeds exactly when the lowercased query is a subsequence of the
/// lowercased text.
pub proof fn lemma_item_match_iff(s: Seq<char>, q: Seq<char>)
    ensures
        (item_match(s, q) is Some) <==> is_subsequence(lowercase(q), lowercase(s)),
{
    let l = lowercase(s);
    let n = lowercase(q);
    lemma_greedy_iff_subsequence(l, n);
    if n.len() == 0 {
        assert(crate::fuzzy::is_embedding(l, n, Seq::<int>::empty(), 0));
    }
}

/// In full-path search (`\`) with a non-empty query, a file is listed exactly when it passes
/// the extension and size filters and the lowercased query is a subsequence of its
/// lowercased full path — not of its bare name.
pub proof fn law_path_search_matches_paths(a: App, b: App)
    requires
        rebuilt(a, b),
        a.search_mode == SearchMode::Path,
        query(a).len() > 0,
    ensures
        forall|i: int|
            0 <= i < a.files@.len() ==> (#[trigger] is_listed(b, i) <==> passes(a, i) && is_subsequence(
                lowercase(query(a)),
                lowercase(a.files@[i].path@),
            )),
{
    assert forall|i: int| 0 <= i < a.files@.len() implies (#[trigger] is_listed(b, i) <==> passes(a, i)
        && is_subsequence(lowercase(query(a)), lowercase(a.files@[i].path@))) by {
        lemma_item_match_iff(a.files@[i].path@, query(a));
        if is_listed(b, i) {
            let k = choose|k: int| 0 <= k < b.filtered@.len() && b.filtered@[k].idx == i;
            assert(shown(a, b.filtered@[k].idx as int));
        }
        if shown(a, i) {
            let k = choose|k: int| 0 <= k < b.filtered@.len() && b.filtered@[k].idx == i;
            assert(is_listed(b, i));
        }
    }
}

/// The lowercased extension of a file name: what follows its last `.`.
pub open spec fn ext_key(name: Seq<char>) -> Seq<char> {
    lowercase(after_last(name, '.'))
}

/// Name of the file on row `k` of the listing.
pub open spec fn row_name(a: App, b: App, k: int) -> Seq<char> {
    a.files@[b.filtered@[k].idx as int].name@
}

/// In extension sort (`S` three times), the listing runs through the lowercased extensions
/// in increasing order, and files with the same extension run through their lowercased
/// names in increasing order.
pub proof fn law_ext_sort_groups_by_extension(a: App, b: App)
    requires
        rebuilt(a, b),
        a.sort_mode == SortMode::Ext,
    ensures
        forall|x: int, y: int|
            0 <= x < y < b.filtered@.len() ==> {
                &&& !lex_lt(ext_key(#[trigger] row_name(a, b, y)), ext_key(#[trigger] row_name(a, b, x)))
                &&& ext_key(row_name(a, b, y)) == ext_key(row_name(a, b, x)) ==> !lex_lt(
                    lowercase(row_name(a, b, y)),
                    lowercase(row_name(a, b, x)),
                )
            },
{
    assert forall|x: int, y: int| 0 <= x < y < b.filtered@.len() implies {
        &&& !lex_lt(ext_key(#[trigger] row_name(a, b, y)), ext_key(#[trigger] row_name(a, b, x)))
        &&& ext_key(row_name(a, b, y)) == ext_key(row_name(a, b, x)) ==> !lex_lt(
            lowercase(row_name(a, b, y)),
            lowercase(row_name(a, b, x)),
        )
    } by {
        let ix = b.filtered@[x].idx as int;
        let iy = b.filtered@[y].idx as int;
        let nx = a.files@[ix].name@;
        let ny = a.files@[iy].name@;
        assert(shown_before(a, ix, iy));
        let kx = mode_key(a, ix);
        let ky = mode_key(a, iy);
        assert(kx == (0u64, ext_key(nx), lowercase(nx)));
        assert(ky == (0u64, ext_key(ny), lowercase(ny)));
        lemma_lex_irrefl(ext_key(nx));
        lemma_lex_irrefl(lowercase(nx));
        if lex_lt(ext_key(ny), ext_key(nx)) {
            if lex_lt(ext_key(nx), ext_key(ny)) {
                lemma_lex_trans(ext_key(nx), ext_key(ny), ext_key(nx));
            }
        }
        if ext_key(ny) == ext_key(nx) && lex_lt(lowercase(ny), lowercase(nx)) {
            if lex_lt(lowercase(nx), lowercase(ny)) {
                lemma_lex_trans(lowercase(nx), lowercase(ny), lowercase(nx));
            }
        }
    }
}

/// A file is listed after a rebuild exactly when the rebuild shows it.
proof fn lemma_listed_iff_shown(a: App, b: App, i: int)
    requires
        rebuilt(a, b),
    ensures
        is_listed(b, i) <==> shown(a, i),
{
    if is_listed(b, i) {
        let k = choose|k: int| 0 <= k < b.filtered@.len() && b.filtered@[k].idx == i;
        assert(shown(a, b.filtered@[k].idx as int));
    }
    if shown(a, i) {
        let k = choose|k: int| 0 <= k < b.filtered@.len() && b.filtered@[k].idx == i;
        assert(is_listed(b, i));
    }
}

/// In name search (`/`, and with search off) with a non-empty query, a file is listed
/// exactly when it passes the extension and size filters and the lowercased query is a
/// subsequence of its lowercased name.
pub proof fn law_name_search_matches_names(a: App, b: App)
    requires
        rebuilt(a, b),
        a.search_mode == SearchMode::Name || a.search_mode == SearchMode::Off,
        query(a).len() > 0,
    ensures
        forall|i: int|
            0 <= i < a.files@.len() ==> (#[trigger] is_listed(b, i) <==> passes(a, i) && is_subsequence(
                lowercase(query(a)),
                lowercase(a.files@[i].name@),
            )),
{
    assert forall|i: int| 0 <= i < a.files@.len() implies (#[trigger] is_listed(b, i) <==> passes(a, i)
        && is_subsequence(lowercase(query(a)), lowercase(a.files@[i].name@))) by {
        lemma_item_match_iff(a.files@[i].name@, query(a));
        lemma_listed_iff_shown(a, b, i);
    }
}

/// In extension search (`%`) with a non-empty query, a file is listed exactly when it passes
/// the extension and size filters and the lowercased query is a subsequence of its
/// lowercased extension (what follows the last `.` of its name).
pub proof fn law_ext_search_matches_extensions(a: App, b: App)
    requires
        rebuilt(a, b),
        a.search_mode == SearchMode::Ext,
        query(a).len() > 0,
    ensures
        forall|i: int|
            0 <= i < a.files@.len() ==> (#[trigger] is_listed(b, i) <==> passes(a, i) && is_subsequence(
                lowercase(query(a)),
                lowercase(after_last(a.files@[i].name@, '.')),
            )),
{
    assert forall|i: int| 0 <= i < a.files@.len() implies (#[trigger] is_listed(b, i) <==> passes(a, i)
        && is_subsequence(lowercase(query(a)), lowercase(after_last(a.files@[i].name@, '.')))) by {
        lemma_item_match_iff(after_last(a.files@[i].name@, '.'), query(a));
        lemma_listed_iff_shown(a, b, i);
    }
}

/// In name sort (`S` once), the listing runs through the lowercased names in increasing
/// order.
pub proof fn law_name_sort_orders_names(a: App, b: App)
    requires
        rebuilt(a, b),
        a.sort_mode == SortMode::Name,
    ensures
        forall|x: int, y: int|
            0 <= x < y < b.filtered@.len() ==> !lex_lt(
                lowercase(#[trigger] row_name(a, b, y)),
                lowercase(#[trigger] row_name(a, b, x)),
            ),
{
    assert forall|x: int, y: int| 0 <= x < y < b.filtered@.len() implies !lex_lt(
        lowercase(#[trigger] row_name(a, b, y)),
        lowercase(#[trigger] row_name(a, b, x)),
    ) by {
        let ix = b.filtered@[x].idx as int;
        let iy = b.filtered@[y].idx as int;
        let lx = lowercase(a.files@[ix].name@);
        let ly = lowercase(a.files@[iy].name@);
        assert(shown_before(a, ix, iy));
        assert(mode_key(a, ix) == (0u64, lx, Seq::<char>::empty()));
        assert(mode_key(a, iy) == (0u64, ly, Seq::<char>::empty()));
        lemma_lex_irrefl(lx);
        lemma_lex_irrefl(Seq::<char>::empty());
        if lex_lt(ly, lx) && lex_lt(lx, ly) {
            lemma_lex_trans(lx, ly, lx);
        }
    }
}

/// Size of the file on row `k` of the listing (a missing size counts as 0).
pub open spec fn row_size(a: App, b: App, k: int) -> int {
    match a.files@[b.filtered@[k].idx as int].size {
        Some(s) => s as int,
        None => 0,
    }
}

/// In size sort (`S` twice), the listing runs from the largest file to the smallest.
pub proof fn law_size_sort_largest_first(a: App, b: App)
    requires
        rebuilt(a, b),
        a.sort_mode == SortMode::Size,
    ensures
        forall|x: int, y: int| 0 <= x < y < b.filtered@.len() ==> #[trigger] row_size(a, b, y) <= #[trigger] row_size(a, b, x),
{
    assert forall|x: int, y: int| 0 <= x < y < b.filtered@.len() implies #[trigger] row_size(a, b, y) <= #[trigger] row_size(a, b, x) by {
        let ix = b.filtered@[x].idx as int;
        let iy = b.filtered@[y].idx as int;
        assert(shown_before(a, ix, iy));
        assert(mode_key(a, ix).0 == u64::MAX - row_size(a, b, x));
        assert(mode_key(a, iy).0 == u64::MAX - row_size(a, b, y));
    }
}

} // verus!
