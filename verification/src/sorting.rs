//! Stable ordering by composite keys: a numeric rank, then two texts.
use vstd::prelude::*;
use crate::text::{chars_eq, lex_lt, lex_lt_exec, lemma_lex_irrefl, lemma_lex_total, lemma_lex_trans};

verus! {

/// A sort key: compared by `rank`, then `primary`, then `secondary` (texts in
/// lexicographic code-point order).
pub struct SortKey {
    pub rank: u64,
    pub primary: Vec<char>,
    pub secondary: Vec<char>,
}

pub type KeyV = (u64, Seq<char>, Seq<char>);

impl View for SortKey {
    type V = KeyV;

    open spec fn view(&self) -> KeyV {
        (self.rank, self.primary@, self.secondary@)
    }
}

/// Strict order on keys.
pub open spec fn key_lt(a: KeyV, b: KeyV) -> bool {
    a.0 < b.0 || (a.0 == b.0 && (lex_lt(a.1, b.1) || (a.1 == b.1 && lex_lt(a.2, b.2))))
}

/// Order of positions `i` and `j` of `keys` in a stable sort: by key, ties by position.
pub open spec fn entry_lt(keys: Seq<KeyV>, i: int, j: int) -> bool {
    key_lt(keys[i], keys[j]) || (keys[i] == keys[j] && i < j)
}

/// Value `v` occurs in `ord`.
pub open spec fn lists(ord: Seq<usize>, v: int) -> bool {
    exists|k: int| 0 <= k < ord.len() && ord[k] == v
}

/// `ord` lists every position of `keys` exactly once, in stable ascending key order.
pub open spec fn is_stable_order(keys: Seq<KeyV>, ord: Seq<usize>) -> bool {
    &&& ord.len() == keys.len()
    &&& forall|k: int| 0 <= k < ord.len() ==> #[trigger] ord[k] < keys.len()
    &&& forall|a: int, b: int| 0 <= a < b < ord.len() ==> ord[a] != ord[b]
    &&& forall|a: int, b: int|
        0 <= a < b < ord.len() ==> entry_lt(keys, #[trigger] ord[a] as int, #[trigger] ord[b] as int)
}

pub proof fn lemma_key_irrefl(a: KeyV)
    ensures
        !key_lt(a, a),
{
    lemma_lex_irrefl(a.1);
    lemma_lex_irrefl(a.2);
}

pub proof fn lemma_key_trans(a: KeyV, b: KeyV, c: KeyV)
    requires
        key_lt(a, b),
        key_lt(b, c),
    ensures
        key_lt(a, c),
{
    if a.0 == b.0 && b.0 == c.0 {
        if lex_lt(a.1, b.1) && lex_lt(b.1, c.1) {
            lemma_lex_trans(a.1, b.1, c.1);
        } else if lex_lt(a.1, b.1) {
        } else if lex_lt(b.1, c.1) {
        } else {
            lemma_lex_trans(a.2, b.2, c.2);
        }
    }
}

pub proof fn lemma_key_total(a: KeyV, b: KeyV)
    ensures
        a == b || key_lt(a, b) || key_lt(b, a),
{
    lemma_lex_total(a.1, b.1);
    lemma_lex_total(a.2, b.2);
}

pub proof fn lemma_key_asym(a: KeyV, b: KeyV)
    requires
        key_lt(a, b),
    ensures
        !key_lt(b, a),
        a != b,
{
    lemma_key_irrefl(a);
    if key_lt(b, a) {
        lemma_key_trans(a, b, a);
    }
}

pub proof fn lemma_entry_trans(keys: Seq<KeyV>, i: int, j: int, k: int)
    requires
        entry_lt(keys, i, j),
        entry_lt(keys, j, k),
    ensures
        entry_lt(keys, i, k),
{
    if key_lt(keys[i], keys[j]) && key_lt(keys[j], keys[k]) {
        lemma_key_trans(keys[i], keys[j], keys[k]);
    }
}

pub fn key_lt_exec(a: &SortKey, b: &SortKey) -> (r: bool)
    ensures
        r == key_lt(a@, b@),
{
    if a.rank != b.rank {
        return a.rank < b.rank;
    }
    if lex_lt_exec(&a.primary, &b.primary) {
        return true;
    }
    if !chars_eq(&a.primary, &b.primary) {
        return false;
    }
    lex_lt_exec(&a.secondary, &b.secondary)
}

/// Positions of `keys` in stable ascending key order (insertion sort).
pub fn stable_order(keys: &Vec<SortKey>) -> (ord: Vec<usize>)
    ensures
        is_stable_order(keys@.map_values(|k: SortKey| k@), ord@),
        forall|v: int| 0 <= v < keys.len() ==> #[trigger] lists(ord@, v),
{
    let ghost kv = keys@.map_values(|k: SortKey| k@);
    let mut ord: Vec<usize> = Vec::new();
    let mut i: usize = 0;
    while i < keys.len()
        invariant
            i <= keys.len(),
            kv == keys@.map_values(|k: SortKey| k@),
            ord.len() == i,
            forall|k: int| 0 <= k < ord.len() ==> #[trigger] ord@[k] < i,
            forall|a: int, b: int| 0 <= a < b < ord.len() ==> ord@[a] != ord@[b],
            forall|a: int, b: int|
                0 <= a < b < ord.len() ==> entry_lt(kv, #[trigger] ord@[a] as int, #[trigger] ord@[b] as int),
            forall|v: int| 0 <= v < i ==> #[trigger] lists(ord@, v),
        decreases keys.len() - i,
    {
        let mut p: usize = 0;
        while p < ord.len() && !key_lt_exec(&keys[i], &keys[ord[p]])
            invariant
                i < keys.len(),
                p <= ord.len(),
                kv == keys@.map_values(|k: SortKey| k@),
                ord.len() == i,
                forall|k: int| 0 <= k < ord.len() ==> #[trigger] ord@[k] < i,
                forall|q: int| 0 <= q < p ==> !key_lt(kv[i as int], kv[#[trigger] ord@[q] as int]),
            decreases ord.len() - p,
        {
            p += 1;
        }
        let ghost old_ord = ord@;
        proof {
            // everything before p orders before i; everything from p on orders after i
            assert forall|q: int| 0 <= q < p implies entry_lt(kv, #[trigger] old_ord[q] as int, i as int) by {
                lemma_key_total(kv[i as int], kv[old_ord[q] as int]);
            }
            if p < ord.len() {
                assert forall|q: int| p <= q < old_ord.len() implies entry_lt(kv, i as int, #[trigger] old_ord[q] as int) by {
                    if q > p {
                        lemma_entry_trans(kv, i as int, old_ord[p as int] as int, old_ord[q] as int);
                    }
                }
            }
        }
        ord.insert(p, i);
        proof {
            let n = ord@;
            assert(n == old_ord.insert(p as int, i));
            assert forall|k: int| 0 <= k < n.len() implies #[trigger] n[k] < i + 1 by {
                if k < p { assert(n[k] == old_ord[k]); } else if k > p { assert(n[k] == old_ord[k - 1]); }
            }
            assert forall|a: int, b: int| 0 <= a < b < n.len() implies n[a] != n[b] && entry_lt(kv, #[trigger] n[a] as int, #[trigger] n[b] as int) by {
                if a < p && b < p {
                    assert(n[a] == old_ord[a] && n[b] == old_ord[b]);
                } else if a < p && b == p {
                    assert(n[a] == old_ord[a]);
                } else if a < p {
                    assert(n[a] == old_ord[a] && n[b] == old_ord[b - 1]);
                } else if a == p {
                    assert(n[b] == old_ord[b - 1]);
                } else {
                    assert(n[a] == old_ord[a - 1] && n[b] == old_ord[b - 1]);
                }
                if n[a] == n[b] {
                    lemma_key_irrefl(kv[n[a] as int]);
                }
            }
            assert forall|v: int| 0 <= v < i + 1 implies #[trigger] lists(n, v) by {
                if v == i {
                    assert(n[p as int] == v);
                } else {
                    assert(lists(old_ord, v));
                    let k = choose|k: int| 0 <= k < old_ord.len() && old_ord[k] == v;
                    if k < p {
                        assert(n[k] == v);
                    } else {
                        assert(n[k + 1] == v);
                    }
                }
            }
        }
        i += 1;
    }
    ord
}

} // verus!
