//! Fuzzy subsequence matching with a positional score.
use vstd::prelude::*;
use vstd::utf8::encode_utf8;
use crate::text::{chars_of, lowercase, to_lower, all_ascii, ascii_lowercase};
use crate::sorting::{SortKey, stable_order, is_stable_order, entry_lt, lists};

verus! {

/// Fuzzy match result.
pub struct FuzzyMatch {
    pub score: i32,
    /// indices of matched chars in haystack
    pub positions: Vec<usize>,
}

impl Clone for FuzzyMatch {
    fn clone(&self) -> (r: Self)
        ensures
            r.score == self.score,
            r.positions@ == self.positions@,
    {
        FuzzyMatch { score: self.score, positions: copy_usizes(&self.positions) }
    }
}

pub fn copy_usizes(v: &Vec<usize>) -> (r: Vec<usize>)
    ensures
        r@ == v@,
{
    let mut r: Vec<usize> = Vec::new();
    let mut i: usize = 0;
    while i < v.len()
        invariant
            i <= v.len(),
            r@ == v@.subrange(0, i as int),
        decreases v.len() - i,
    {
        r.push(v[i]);
        i += 1;
        assert(r@ =~= v@.subrange(0, i as int));
    }
    assert(v@.subrange(0, v@.len() as int) =~= v@);
    r
}

// ─── Greedy matching ─────────────────────────────────────────────────────────

/// First index `j >= start` with `h[j] == c`, or -1.
pub open spec fn first_from(h: Seq<char>, c: char, start: int) -> int
    decreases h.len() - start,
{
    if start < 0 || start >= h.len() {
        -1
    } else if h[start] == c {
        start
    } else {
        first_from(h, c, start + 1)
    }
}

pub proof fn lemma_first_from(h: Seq<char>, c: char, start: int)
    requires
        0 <= start,
    ensures
        first_from(h, c, start) == -1 || (start <= first_from(h, c, start) < h.len() && h[first_from(
            h,
            c,
            start,
        )] == c),
        forall|j: int|
            start <= j < h.len() && (first_from(h, c, start) == -1 || j < first_from(h, c, start))
                ==> h[j] != c,
    decreases h.len() - start,
{
    if start < h.len() && h[start] != c {
        lemma_first_from(h, c, start + 1);
    }
}

/// Greedy left-to-right placement of the needle's characters in the haystack,
/// each at the first possible index at or after `start`.
pub open spec fn greedy(h: Seq<char>, n: Seq<char>, start: int) -> Option<Seq<int>>
    decreases n.len(),
{
    if n.len() == 0 {
        Some(Seq::empty())
    } else {
        let j = first_from(h, n[0], start);
        if j < 0 {
            None
        } else {
            match greedy(h, n.drop_first(), j + 1) {
                Some(rest) => Some(seq![j] + rest),
                None => None,
            }
        }
    }
}

/// `p` places the characters of `n` in `h` at strictly increasing indices, all at or after `start`.
pub open spec fn is_embedding(h: Seq<char>, n: Seq<char>, p: Seq<int>, start: int) -> bool {
    &&& p.len() == n.len()
    &&& forall|i: int| 0 <= i < p.len() ==> start <= #[trigger] p[i] < h.len()
    &&& forall|i: int| 0 <= i < p.len() ==> h[#[trigger] p[i]] == n[i]
    &&& forall|i: int, j: int| 0 <= i < j < p.len() ==> #[trigger] p[i] < #[trigger] p[j]
}

/// `n` is a (not necessarily contiguous) subsequence of `h`.
pub open spec fn is_subsequence(n: Seq<char>, h: Seq<char>) -> bool {
    exists|p: Seq<int>| is_embedding(h, n, p, 0)
}

pub proof fn lemma_greedy_sound(h: Seq<char>, n: Seq<char>, start: int)
    requires
        0 <= start,
        greedy(h, n, start) is Some,
    ensures
        is_embedding(h, n, greedy(h, n, start)->0, start),
    decreases n.len(),
{
    if n.len() > 0 {
        let j = first_from(h, n[0], start);
        lemma_first_from(h, n[0], start);
        lemma_greedy_sound(h, n.drop_first(), j + 1);
        let rest = greedy(h, n.drop_first(), j + 1)->0;
        let p = seq![j] + rest;
        assert forall|i: int| 0 <= i < p.len() implies h[#[trigger] p[i]] == n[i] by {
            if i > 0 {
                assert(p[i] == rest[i - 1]);
                assert(n.drop_first()[i - 1] == n[i]);
            }
        }
        assert forall|i: int, k: int| 0 <= i < k < p.len() implies #[trigger] p[i] < #[trigger] p[k] by {
            assert(p[k] == rest[k - 1]);
            if i > 0 {
                assert(p[i] == rest[i - 1]);
            }
        }
        assert forall|i: int| 0 <= i < p.len() implies start <= #[trigger] p[i] < h.len() by {
            if i > 0 {
                assert(p[i] == rest[i - 1]);
            }
        }
    }
}

pub proof fn lemma_greedy_complete(h: Seq<char>, n: Seq<char>, p: Seq<int>, start: int)
    requires
        0 <= start,
        is_embedding(h, n, p, start),
    ensures
        greedy(h, n, start) is Some,
    decreases n.len(),
{
    if n.len() > 0 {
        let j = first_from(h, n[0], start);
        lemma_first_from(h, n[0], start);
        assert(p[0] >= start && h[p[0]] == n[0]);
        assert(j != -1 && j <= p[0]);
        let q = p.drop_first();
        assert forall|i: int| 0 <= i < q.len() implies j + 1 <= #[trigger] q[i] < h.len() by {
            assert(q[i] == p[i + 1]);
            assert(p[0] < p[i + 1]);
        }
        assert forall|i: int| 0 <= i < q.len() implies h[#[trigger] q[i]] == n.drop_first()[i] by {
            assert(q[i] == p[i + 1]);
        }
        assert forall|a: int, b: int| 0 <= a < b < q.len() implies #[trigger] q[a] < #[trigger] q[b] by {
            assert(q[a] == p[a + 1] && q[b] == p[b + 1]);
        }
        lemma_greedy_complete(h, n.drop_first(), q, j + 1);
    }
}

/// The greedy placement succeeds exactly when the needle is a subsequence of the haystack.
pub proof fn lemma_greedy_iff_subsequence(h: Seq<char>, n: Seq<char>)
    ensures
        (greedy(h, n, 0) is Some) <==> is_subsequence(n, h),
{
    if greedy(h, n, 0) is Some {
        lemma_greedy_sound(h, n, 0);
        assert(is_embedding(h, n, greedy(h, n, 0)->0, 0));
    }
    if is_subsequence(n, h) {
        let p = choose|p: Seq<int>| is_embedding(h, n, p, 0);
        lemma_greedy_complete(h, n, p, 0);
    }
}

// ─── Score ───────────────────────────────────────────────────────────────────

/// Separator characters that earn the after-separator bonus.
pub open spec fn is_sep(c: char) -> bool {
    c == '/' || c == '_' || c == '-' || c == '.'
}

/// Base points of the `r`-th matched position.
pub open spec fn base_points(h: Seq<char>, pos: Seq<int>, r: int) -> int {
    let p = pos[r];
    if p == 0 {
        5
    } else if is_sep(h[p - 1]) {
        4
    } else if r > 0 && pos[r - 1] + 1 == p {
        3
    } else {
        1
    }
}

/// Sum of the base points of the first `k` positions.
pub open spec fn base_sum(h: Seq<char>, pos: Seq<int>, k: int) -> int
    decreases k,
{
    if k <= 0 {
        0
    } else {
        base_sum(h, pos, k - 1) + base_points(h, pos, k - 1)
    }
}

/// Two's-complement reduction of an integer to the `i32` range.
pub open spec fn wrap32(x: int) -> int {
    let m = x % 4294967296;
    if m >= 2147483648 {
        m - 4294967296
    } else {
        m
    }
}

/// Integer division rounding toward zero.
pub open spec fn tdiv(x: int, d: int) -> int {
    if x >= 0 {
        x / d
    } else {
        -((-x) / d)
    }
}

/// Score of a match at positions `pos` in a haystack with characters `h` whose UTF-8
/// encoding has `hb` bytes: the positional points, an early-start bonus of a quarter of
/// the distance from the first match to the byte length, less an eighth of the byte
/// length; computed in `i32` with two's-complement wrap-around.
pub open spec fn match_score(h: Seq<char>, hb: int, pos: Seq<int>) -> int {
    let len = wrap32(hb);
    let bonus = if pos.len() > 0 {
        let d = wrap32(len - wrap32(pos[0]));
        (if d > 0 {
            d
        } else {
            0
        }) / 4
    } else {
        0
    };
    wrap32(base_sum(h, pos, pos.len() as int) + bonus - tdiv(len, 8))
}

/// The result `fuzzy_match` gives for haystack `h` (with `hb` UTF-8 bytes) and needle `n`.
pub open spec fn fuzzy_spec(h: Seq<char>, hb: int, n: Seq<char>) -> Option<(int, Seq<int>)> {
    if n.len() == 0 {
        Some((0, Seq::empty()))
    } else {
        match greedy(h, n, 0) {
            Some(pos) => Some((match_score(h, hb, pos), pos)),
            None => None,
        }
    }
}

/// Positions as integers.
pub open spec fn as_ints(v: Seq<usize>) -> Seq<int> {
    v.map_values(|x: usize| x as int)
}

proof fn lemma_wrap32_neg(x: int)
    requires
        -4294967296 <= x < 0,
    ensures
        wrap32(x) == if x < -2147483648 {
            x + 4294967296
        } else {
            x
        },
{
    vstd::arithmetic::div_mod::lemma_fundamental_div_mod_converse(x, 4294967296, -1, x + 4294967296);
}

proof fn lemma_increasing_ge(p: Seq<int>, i: int)
    requires
        0 <= i < p.len(),
        forall|a: int| 0 <= a < p.len() ==> 0 <= #[trigger] p[a],
        forall|a: int, b: int| 0 <= a < b < p.len() ==> #[trigger] p[a] < #[trigger] p[b],
    ensures
        p[i] >= i,
    decreases i,
{
    if i > 0 {
        lemma_increasing_ge(p, i - 1);
        assert(p[i - 1] < p[i]);
    }
}

fn wrap32_exec(x: i128) -> (r: i32)
    requires
        -4294967296 <= x,
    ensures
        r == wrap32(x as int),
{
    if x < 0 {
        proof {
            lemma_wrap32_neg(x as int);
        }
        if x < -2147483648 {
            (x + 4294967296) as i32
        } else {
            x as i32
        }
    } else {
        let m = x % 4294967296;
        if m >= 2147483648 {
            (m - 4294967296) as i32
        } else {
            m as i32
        }
    }
}

proof fn lemma_base_sum_bounds(h: Seq<char>, pos: Seq<int>, k: int)
    requires
        0 <= k <= pos.len(),
        forall|i: int| 0 <= i < pos.len() ==> 0 <= #[trigger] pos[i] < h.len(),
    ensures
        0 <= base_sum(h, pos, k) <= 5 * k,
    decreases k,
{
    if k > 0 {
        lemma_base_sum_bounds(h, pos, k - 1);
    }
}

fn is_sep_exec(c: char) -> (r: bool)
    ensures
        r == is_sep(c),
{
    c == '/' || c == '_' || c == '-' || c == '.'
}

/// The score of the embedding `positions` in `h`, whose encoding has `hbytes` bytes.
fn score_positions(h: &Vec<char>, positions: &Vec<usize>, hbytes: usize) -> (score: i32)
    requires
        positions.len() > 0,
        forall|i: int| 0 <= i < positions.len() ==> #[trigger] positions@[i] < h.len(),
        forall|a: int, b: int| 0 <= a < b < positions.len() ==> #[trigger] positions@[a] < #[trigger] positions@[b],
    ensures
        score == match_score(h@, hbytes as int, as_ints(positions@)),
{
    let ghost pos = as_ints(positions@);
    proof {
        assert forall|i: int| 0 <= i < pos.len() implies 0 <= #[trigger] pos[i] < h.len() by {
            assert(pos[i] == positions@[i] as int);
        }
        assert forall|a: int, b: int| 0 <= a < b < pos.len() implies #[trigger] pos[a] < #[trigger] pos[b] by {
            assert(pos[a] == positions@[a] as int && pos[b] == positions@[b] as int);
        }
        lemma_base_sum_bounds(h@, pos, pos.len() as int);
        lemma_increasing_ge(pos, pos.len() - 1);
    }
    let mut sum: i128 = 0;
    let mut r: usize = 0;
    while r < positions.len()
        invariant
            pos == as_ints(positions@),
            forall|i: int| 0 <= i < positions.len() ==> #[trigger] positions@[i] < h.len(),
            r <= positions.len(),
            positions.len() <= h.len(),
            sum == base_sum(h@, pos, r as int),
            0 <= sum <= 5 * r,
        decreases positions.len() - r,
    {
        let p = positions[r];
        assert(pos[r as int] == p as int);
        if r > 0 {
            assert(pos[r - 1] == positions@[r - 1] as int);
        }
        let pts: i128 = if p == 0 {
            5
        } else if is_sep_exec(h[p - 1]) {
            4
        } else if r > 0 && positions[r - 1] + 1 == p {
            3
        } else {
            1
        };
        sum = sum + pts;
        r += 1;
    }
    let len = wrap32_exec(hbytes as i128);
    let p0 = wrap32_exec(positions[0] as i128);
    let d = wrap32_exec(len as i128 - p0 as i128);
    let bonus: i128 = if d > 0 { (d / 4) as i128 } else { 0 };
    let pen: i128 = if len >= 0 { (len / 8) as i128 } else { -(((-(len as i128)) / 8)) };
    assert(pos[0] == positions@[0] as int);
    wrap32_exec(sum + bonus - pen)
}

/// Byte length of the UTF-8 encoding of `s`, as `str::len` reports it.
pub open spec fn byte_len(s: Seq<char>) -> int {
    (encode_utf8(s).len() as usize) as int
}

/// Score `needle` against `haystack` (both expected lowercase already).
/// Returns None if needle doesn't match at all.
///
/// Scoring bonuses:
///   +5  start of string
///   +4  after separator (/, _, -, .)
///   +3  consecutive match run
///   +1  plain match
pub fn fuzzy_match(haystack: &str, needle: &str) -> (r: Option<FuzzyMatch>)
    ensures
        match fuzzy_spec(haystack@, byte_len(haystack@), needle@) {
            Some((score, pos)) => r is Some && r->0.score == score && as_ints(r->0.positions@)
                == pos,
            None => r is None,
        },
        r is Some <==> is_subsequence(needle@, haystack@),
        r is Some ==> is_embedding(haystack@, needle@, as_ints(r->0.positions@), 0),
{
    proof {
        lemma_greedy_iff_subsequence(haystack@, needle@);
    }
    let n = chars_of(needle);
    if n.len() == 0 {
        let r = FuzzyMatch { score: 0, positions: Vec::new() };
        proof {
            assert(as_ints(r.positions@) =~= Seq::<int>::empty());
            assert(is_embedding(haystack@, needle@, Seq::<int>::empty(), 0));
        }
        return Some(r);
    }
    let h = chars_of(haystack);
    // Forward pass — greedy index collection
    let mut positions: Vec<usize> = Vec::new();
    let mut hi: usize = 0;
    let mut k: usize = 0;
    assert(n@.skip(0) =~= n@);
    while k < n.len()
        invariant
            h@ == haystack@,
            n@ == needle@,
            k <= n.len(),
            hi <= h.len(),
            positions.len() == k,
            greedy(h@, n@, 0) == match greedy(h@, n@.skip(k as int), hi as int) {
                Some(rest) => Some(as_ints(positions@) + rest),
                None => None::<Seq<int>>,
            },
        decreases n.len() - k,
    {
        let nc = n[k];
        let mut j = hi;
        while j < h.len() && h[j] != nc
            invariant
                hi <= j <= h.len(),
                first_from(h@, nc, hi as int) == first_from(h@, nc, j as int),
            decreases h.len() - j,
        {
            j += 1;
        }
        let ghost rest_n = n@.skip(k as int);
        assert(rest_n[0] == nc);
        assert(rest_n.drop_first() =~= n@.skip(k + 1));
        if j == h.len() {
            assert(greedy(h@, rest_n, hi as int) is None);
            assert(greedy(h@, n@, 0) is None);
            proof {
                lemma_greedy_iff_subsequence(haystack@, needle@);
            }
            return None;
        }
        let ghost old_pos = as_ints(positions@);
        positions.push(j);
        proof {
            assert(as_ints(positions@) =~= old_pos.push(j as int));
            match greedy(h@, n@.skip(k + 1), j + 1) {
                Some(rest) => {
                    assert(old_pos + (seq![j as int] + rest) =~= old_pos.push(j as int) + rest);
                },
                None => {},
            }
        }
        hi = j + 1;
        k += 1;
    }
    let ghost pos = as_ints(positions@);
    proof {
        assert(n@.skip(k as int) =~= Seq::<char>::empty());
        assert(pos + Seq::<int>::empty() =~= pos);
        lemma_greedy_sound(h@, n@, 0);
        lemma_greedy_iff_subsequence(haystack@, needle@);
        assert(greedy(h@, n@, 0) == Some(pos));
        assert forall|i: int| 0 <= i < positions.len() implies #[trigger] positions@[i] < h.len() by {
            assert(pos[i] == positions@[i] as int);
        }
        assert forall|a: int, b: int| 0 <= a < b < positions.len() implies #[trigger] positions@[a] < #[trigger] positions@[b] by {
            assert(pos[a] == positions@[a] as int && pos[b] == positions@[b] as int);
        }
    }
    let hbytes = haystack.len();
    let score = score_positions(&h, &positions, hbytes);
    Some(FuzzyMatch { score, positions })
}

// ─── Filtering ───────────────────────────────────────────────────────────────

/// The match of item `s` against needle `q`, both lowercased first.
pub open spec fn item_match(s: Seq<char>, q: Seq<char>) -> Option<(int, Seq<int>)> {
    let l = lowercase(s);
    fuzzy_spec(l, byte_len(l), lowercase(q))
}

/// Filter + sort a list of strings by fuzzy score.
/// Returns `(index of the item, FuzzyMatch)` pairs, sorted best-first.
pub fn fuzzy_filter(items: &[String], needle: &str) -> (r: Vec<(usize, FuzzyMatch)>)
    ensures
        r.len() <= items.len(),
        needle@.len() == 0 ==> r.len() == items.len() && forall|k: int|
            0 <= k < r.len() ==> (#[trigger] r[k]).0 == k && r[k].1.score == 0
                && r[k].1.positions@.len() == 0,
        needle@.len() > 0 ==> {
            &&& forall|k: int|
                0 <= k < r.len() ==> (#[trigger] r[k]).0 < items.len() && item_match(
                    items@[r[k].0 as int]@,
                    needle@,
                ) == Some((r[k].1.score as int, as_ints(r[k].1.positions@)))
            &&& forall|i: int|
                0 <= i < items.len() && #[trigger] item_match(items@[i]@, needle@) is Some ==> exists|k: int|
                    0 <= k < r.len() && r[k].0 == i
            &&& forall|a: int, b: int|
                0 <= a < b < r.len() ==> (#[trigger] r[a]).1.score > (#[trigger] r[b]).1.score
                    || (r[a].1.score == r[b].1.score && r[a].0 < r[b].0)
        },
        all_ascii(needle@) ==> lowercase(needle@) == ascii_lowercase(needle@),
        needle@.len() > 0 ==> forall|i: int|
            0 <= i < items.len() && all_ascii(#[trigger] items@[i]@) ==> lowercase(items@[i]@)
                == ascii_lowercase(items@[i]@),
{
    let q = to_lower(needle);
    if needle.is_empty() {
        let mut r: Vec<(usize, FuzzyMatch)> = Vec::new();
        let mut i: usize = 0;
        while i < items.len()
            invariant
                i <= items.len(),
                r.len() == i,
                forall|k: int|
                    0 <= k < r.len() ==> (#[trigger] r[k]).0 == k && r[k].1.score == 0
                        && r[k].1.positions@.len() == 0,
            decreases items.len() - i,
        {
            r.push((i, FuzzyMatch { score: 0, positions: Vec::new() }));
            i += 1;
        }
        return r;
    }
    let mut found: Vec<(usize, FuzzyMatch)> = Vec::new();
    let mut keys: Vec<SortKey> = Vec::new();
    let mut i: usize = 0;
    while i < items.len()
        invariant
            i <= items.len(),
            q@ == lowercase(needle@),
            all_ascii(needle@) ==> lowercase(needle@) == ascii_lowercase(needle@),
            forall|j: int|
                0 <= j < i && all_ascii(#[trigger] items@[j]@) ==> lowercase(items@[j]@) == ascii_lowercase(
                    items@[j]@,
                ),
            found.len() == keys.len(),
            found.len() <= i,
            forall|k: int|
                0 <= k < found.len() ==> (#[trigger] found[k]).0 < i && item_match(
                    items@[found[k].0 as int]@,
                    needle@,
                ) == Some((found[k].1.score as int, as_ints(found[k].1.positions@)))
                    && keys[k]@ == ((2147483647 - found[k].1.score) as u64, Seq::<char>::empty(), Seq::<char>::empty()),
            forall|a: int, b: int| 0 <= a < b < found.len() ==> (#[trigger] found[a]).0 < (#[trigger] found[b]).0,
            forall|j: int|
                0 <= j < i && #[trigger] item_match(items@[j]@, needle@) is Some ==> exists|k: int|
                    0 <= k < found.len() && found[k].0 == j,
        decreases items.len() - i,
    {
        let l = to_lower(items[i].as_str());
        let m = fuzzy_match(l.as_str(), q.as_str());
        assert(item_match(items@[i as int]@, needle@) == fuzzy_spec(l@, byte_len(l@), q@));
        let ghost old_found = found@;
        match m {
            Some(fm) => {
                let rank = (2147483647i64 - fm.score as i64) as u64;
                keys.push(SortKey { rank, primary: Vec::new(), secondary: Vec::new() });
                found.push((i, fm));
                proof {
                    let k = found.len() - 1;
                    assert(found[k as int].0 == i);
                    assert forall|j: int|
                        0 <= j < i + 1 && #[trigger] item_match(items@[j]@, needle@) is Some implies exists|k2: int|
                            0 <= k2 < found.len() && found[k2].0 == j by {
                        if j < i {
                            let k2 = choose|k2: int| 0 <= k2 < old_found.len() && old_found[k2].0 == j;
                            assert(found[k2].0 == j);
                        } else {
                            assert(found[k as int].0 == j);
                        }
                    }
                }
            },
            None => {
                assert(item_match(items@[i as int]@, needle@) is None);
            },
        }
        i += 1;
    }
    let ord = stable_order(&keys);
    let ghost kv = keys@.map_values(|k: SortKey| k@);
    let mut r: Vec<(usize, FuzzyMatch)> = Vec::new();
    let mut k: usize = 0;
    while k < ord.len()
        invariant
            k <= ord.len(),
            found.len() == keys.len(),
            kv == keys@.map_values(|k: SortKey| k@),
            is_stable_order(kv, ord@),
            r.len() == k,
            forall|j: int| 0 <= j < k ==> (#[trigger] r[j]).0 == found[ord@[j] as int].0 && r[j].1.score
                == found[ord@[j] as int].1.score && r[j].1.positions@ == found[ord@[j] as int].1.positions@,
        decreases ord.len() - k,
    {
        let e = &found[ord[k]];
        r.push((e.0, e.1.clone()));
        k += 1;
    }
    proof {
        assert forall|a: int, b: int| 0 <= a < b < r.len() implies (#[trigger] r[a]).1.score > (#[trigger] r[b]).1.score
            || (r[a].1.score == r[b].1.score && r[a].0 < r[b].0) by {
            let x = ord@[a] as int;
            let y = ord@[b] as int;
            assert(entry_lt(kv, x, y));
            assert(kv[x] == keys[x]@);
            assert(kv[y] == keys[y]@);
            if x > y {
                assert(found[y].0 < found[x].0);
            } else {
                assert(found[x].0 < found[y].0);
            }
        }
        assert forall|j: int|
            0 <= j < items.len() && #[trigger] item_match(items@[j]@, needle@) is Some implies exists|k2: int|
                0 <= k2 < r.len() && r[k2].0 == j by {
            let f = choose|f: int| 0 <= f < found.len() && found[f].0 == j;
            assert(lists(ord@, f));
            let k2 = choose|k2: int| 0 <= k2 < ord.len() && ord@[k2] == f;
            assert(r[k2].0 == j);
        }
    }
    r
}

} // verus!
