//! A one-line text input whose cursor is a byte offset into the UTF-8 encoding.
use vstd::prelude::*;
use crate::text::{chars_of, string_of, copy_range, push_all};

verus! {

/// `char::len_utf8`: bytes of the UTF-8 encoding of `c`.
pub open spec fn char_width(c: char) -> nat {
    if (c as int) < 0x80 {
        1
    } else if (c as int) < 0x800 {
        2
    } else if (c as int) < 0x10000 {
        3
    } else {
        4
    }
}

pub fn char_width_exec(c: char) -> (w: usize)
    ensures
        w == char_width(c),
{
    let u = c as u32;
    if u < 0x80 {
        1
    } else if u < 0x800 {
        2
    } else if u < 0x10000 {
        3
    } else {
        4
    }
}

/// Byte length of the UTF-8 encoding of `s`.
pub open spec fn utf8_len(s: Seq<char>) -> nat
    decreases s.len(),
{
    if s.len() == 0 {
        0
    } else {
        utf8_len(s.drop_last()) + char_width(s.last())
    }
}

/// Byte offset of character `k` of `s`.
pub open spec fn prefix_bytes(s: Seq<char>, k: int) -> nat {
    utf8_len(s.take(k))
}

/// `b` is the byte offset of some character of `s` (or its end).
pub open spec fn is_boundary(s: Seq<char>, b: int) -> bool {
    exists|k: int| 0 <= k <= s.len() && #[trigger] prefix_bytes(s, k) == b
}

pub proof fn lemma_prefix_step(s: Seq<char>, k: int)
    requires
        0 <= k < s.len(),
    ensures
        prefix_bytes(s, k + 1) == prefix_bytes(s, k) + char_width(s[k]),
{
    assert(s.take(k + 1).drop_last() =~= s.take(k));
}

pub proof fn lemma_prefix_mono(s: Seq<char>, i: int, j: int)
    requires
        0 <= i <= j <= s.len(),
    ensures
        prefix_bytes(s, i) + (j - i) <= prefix_bytes(s, j),
        i < j ==> prefix_bytes(s, i) < prefix_bytes(s, j),
    decreases j - i,
{
    if i < j {
        lemma_prefix_mono(s, i, j - 1);
        lemma_prefix_step(s, j - 1);
    }
}

pub proof fn lemma_prefix_full(s: Seq<char>)
    ensures
        prefix_bytes(s, s.len() as int) == utf8_len(s),
{
    assert(s.take(s.len() as int) =~= s);
}

/// Index of the character that starts at byte `b`, for a boundary `b`.
pub open spec fn boundary_index(s: Seq<char>, b: int) -> int {
    choose|k: int| 0 <= k <= s.len() && prefix_bytes(s, k) == b
}

pub proof fn lemma_boundary_unique(s: Seq<char>, i: int, j: int)
    requires
        0 <= i <= s.len(),
        0 <= j <= s.len(),
        prefix_bytes(s, i) == prefix_bytes(s, j),
    ensures
        i == j,
{
    if i < j {
        lemma_prefix_mono(s, i, j);
    } else if j < i {
        lemma_prefix_mono(s, j, i);
    }
}

/// Largest character index whose byte offset is below `b`.
pub open spec fn last_before(s: Seq<char>, b: int, k: int) -> int
    decreases s.len() - k,
{
    if 0 <= k < s.len() && prefix_bytes(s, k + 1) < b {
        last_before(s, b, k + 1)
    } else {
        k
    }
}

/// Byte length of the characters of `v`.
pub fn utf8_len_exec(v: &Vec<char>) -> (n: usize)
    requires
        utf8_len(v@) <= usize::MAX,
    ensures
        n == utf8_len(v@),
{
    let mut n: usize = 0;
    let mut k: usize = 0;
    while k < v.len()
        invariant
            k <= v.len(),
            n == prefix_bytes(v@, k as int),
            utf8_len(v@) <= usize::MAX,
        decreases v.len() - k,
    {
        proof {
            lemma_prefix_step(v@, k as int);
            lemma_prefix_mono(v@, k + 1, v@.len() as int);
            lemma_prefix_full(v@);
        }
        n = n + char_width_exec(v[k]);
        k += 1;
    }
    proof {
        lemma_prefix_full(v@);
    }
    n
}

/// Character index at byte offset `b`, when `b` is a boundary.
pub fn boundary_at(v: &Vec<char>, b: usize) -> (r: Option<usize>)
    requires
        b <= utf8_len(v@),
        utf8_len(v@) <= usize::MAX,
    ensures
        match r {
            Some(k) => k <= v.len() && prefix_bytes(v@, k as int) == b,
            None => !is_boundary(v@, b as int),
        },
{
    let mut n: usize = 0;
    let mut k: usize = 0;
    proof {
        lemma_prefix_full(v@);
    }
    while n < b
        invariant
            k <= v.len(),
            n == prefix_bytes(v@, k as int),
            n <= b,
            b <= utf8_len(v@),
            utf8_len(v@) <= usize::MAX,
            forall|j: int| 0 <= j < k ==> prefix_bytes(v@, j) < b,
        decreases b - n,
    {
        proof {
            lemma_prefix_full(v@);
            if k == v.len() {
                assert(false);
            }
            lemma_prefix_step(v@, k as int);
            lemma_prefix_mono(v@, k + 1, v@.len() as int);
        }
        let w = char_width_exec(v[k]);
        if n + w > b {
            proof {
                assert forall|j: int| 0 <= j <= v@.len() implies #[trigger] prefix_bytes(v@, j) != b by {
                    if j > k {
                        lemma_prefix_mono(v@, k + 1, j);
                    }
                }
            }
            return None;
        }
        n = n + w;
        k += 1;
    }
    Some(k)
}

/// Character index of the last character starting before byte `b`.
pub fn last_before_exec(v: &Vec<char>, b: usize) -> (k: usize)
    requires
        0 < b <= utf8_len(v@),
        utf8_len(v@) <= usize::MAX,
    ensures
        k == last_before(v@, b as int, 0),
        k < v.len(),
        prefix_bytes(v@, k as int) < b,
{
    let mut k: usize = 0;
    let mut n: usize = 0;
    proof {
        lemma_prefix_full(v@);
        assert(v@.take(0) =~= Seq::<char>::empty());
        if v.len() == 0 {
            assert(false);
        }
    }
    loop
        invariant
            k < v.len(),
            n == prefix_bytes(v@, k as int),
            n < b,
            b <= utf8_len(v@),
            utf8_len(v@) <= usize::MAX,
            last_before(v@, b as int, 0) == last_before(v@, b as int, k as int),
        decreases v.len() - k,
    {
        proof {
            lemma_prefix_step(v@, k as int);
            lemma_prefix_full(v@);
            lemma_prefix_mono(v@, k + 1, v@.len() as int);
        }
        let w = char_width_exec(v[k]);
        if k + 1 < v.len() && n + w < b {
            n = n + w;
            k += 1;
        } else {
            return k;
        }
    }
}

/// The UTF-8 encoding of one character is `char_width` bytes long.
proof fn lemma_scalar_width(c: char)
    ensures
        vstd::utf8::encode_scalar(c as u32).len() == char_width(c),
{
    vstd::utf8::char_is_scalar(c);
}

proof fn lemma_utf8_len_cons(c: char, t: Seq<char>)
    ensures
        utf8_len(seq![c] + t) == char_width(c) + utf8_len(t),
    decreases t.len(),
{
    if t.len() > 0 {
        lemma_utf8_len_cons(c, t.drop_last());
        assert((seq![c] + t).drop_last() =~= seq![c] + t.drop_last());
        assert((seq![c] + t).last() == t.last());
    } else {
        assert(seq![c] + t =~= seq![c]);
        assert(seq![c].drop_last() =~= Seq::<char>::empty());
        assert(utf8_len(Seq::<char>::empty()) == 0);
        assert(seq![c].last() == c);
    }
}

/// `utf8_len` is the length of the UTF-8 encoding.
pub proof fn lemma_utf8_len_encoding(s: Seq<char>)
    ensures
        vstd::utf8::encode_utf8(s).len() == utf8_len(s),
    decreases s.len(),
{
    if s.len() > 0 {
        lemma_utf8_len_encoding(s.drop_first());
        lemma_scalar_width(s[0]);
        lemma_utf8_len_cons(s[0], s.drop_first());
        assert(seq![s[0]] + s.drop_first() =~= s);
    }
}

/// The number of bytes in the UTF-8 encoding of `s`.
pub(crate) fn byte_len_of(s: &str) -> (n: usize)
    ensures
        n == utf8_len(s@),
{
    broadcast use vstd::slice::axiom_spec_len;

    let b = s.as_bytes();
    proof {
        lemma_utf8_len_encoding(s@);
    }
    b.len()
}

/// `s` with `c` inserted before character `k`.
pub open spec fn inserted(s: Seq<char>, k: int, c: char) -> Seq<char> {
    s.take(k).push(c) + s.skip(k)
}

pub proof fn lemma_inserted_prefix(s: Seq<char>, k: int, c: char)
    requires
        0 <= k <= s.len(),
    ensures
        prefix_bytes(inserted(s, k, c), k + 1) == prefix_bytes(s, k) + char_width(c),
        prefix_bytes(inserted(s, k, c), k + 1) <= utf8_len(inserted(s, k, c)),
{
    let t = inserted(s, k, c);
    assert(t.take(k + 1) =~= s.take(k).push(c));
    assert(s.take(k).push(c).drop_last() =~= s.take(k));
    lemma_prefix_mono(t, k + 1, t.len() as int);
    lemma_prefix_full(t);
}

pub proof fn lemma_removed_prefix(s: Seq<char>, k: int)
    requires
        0 <= k < s.len(),
    ensures
        prefix_bytes(s.remove(k), k) == prefix_bytes(s, k),
        prefix_bytes(s, k) <= utf8_len(s.remove(k)),
{
    let t = s.remove(k);
    assert(t.take(k) =~= s.take(k));
    lemma_prefix_mono(t, k, t.len() as int);
    lemma_prefix_full(t);
}

/// The character index of byte offset `b`, for a boundary `b`, is the one `boundary_index` names.
pub proof fn lemma_boundary_index(s: Seq<char>, b: int, k: int)
    requires
        0 <= k <= s.len(),
        prefix_bytes(s, k) == b,
    ensures
        is_boundary(s, b),
        boundary_index(s, b) == k,
{
    assert(is_boundary(s, b));
    let j = boundary_index(s, b);
    lemma_boundary_unique(s, j, k);
}

/// `s` with `c` inserted before character `k`.
pub fn insert_char(s: &String, k: usize, c: char) -> (r: String)
    requires
        k <= s@.len(),
    ensures
        r@ == inserted(s@, k as int, c),
{
    let v = chars_of(s.as_str());
    let mut w = copy_range(&v, 0, k);
    w.push(c);
    let tail = copy_range(&v, k, v.len());
    push_all(&mut w, &tail);
    assert(w@ =~= inserted(s@, k as int, c));
    string_of(w.as_slice())
}

/// `s` without character `k`.
pub fn remove_char(s: &String, k: usize) -> (r: String)
    requires
        k < s@.len(),
    ensures
        r@ == s@.remove(k as int),
{
    let mut v = chars_of(s.as_str());
    v.remove(k);
    string_of(v.as_slice())
}

} // verus!
