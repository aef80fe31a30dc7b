//! Header normalization for cache keys. The supplied headers are a set, not
//! a sequence: the key treats two orders of the same pairs alike, so the
//! pairs are brought into one canonical order — sorted by name, then value —
//! before the key is formed.

use vstd::multiset::Multiset;
use vstd::prelude::*;

verus! {

/// Lexicographic order over the code points of two texts: a prefix comes
/// before every extension of it.
pub open spec fn chars_le(a: Seq<char>, b: Seq<char>) -> bool
    decreases a.len(),
{
    if a.len() == 0 {
        true
    } else if b.len() == 0 {
        false
    } else if (a[0] as u32) < (b[0] as u32) {
        true
    } else if (b[0] as u32) < (a[0] as u32) {
        false
    } else {
        chars_le(a.drop_first(), b.drop_first())
    }
}

/// Order on header pairs: by name, ties broken by value.
pub open spec fn header_le(a: (String, String), b: (String, String)) -> bool {
    if chars_le(a.0@, b.0@) && chars_le(b.0@, a.0@) {
        chars_le(a.1@, b.1@)
    } else {
        chars_le(a.0@, b.0@)
    }
}

/// Every two texts compare one way or the other.
pub proof fn lemma_chars_le_total(a: Seq<char>, b: Seq<char>)
    ensures
        chars_le(a, b) || chars_le(b, a),
    decreases a.len(),
{
    if a.len() > 0 && b.len() > 0 && a[0] as u32 == b[0] as u32 {
        lemma_chars_le_total(a.drop_first(), b.drop_first());
    }
}

/// The text order is transitive.
pub proof fn lemma_chars_le_trans(a: Seq<char>, b: Seq<char>, c: Seq<char>)
    requires
        chars_le(a, b),
        chars_le(b, c),
    ensures
        chars_le(a, c),
    decreases a.len(),
{
    if a.len() > 0 && b.len() > 0 && c.len() > 0 && a[0] as u32 == b[0] as u32 && b[0] as u32
        == c[0] as u32 {
        lemma_chars_le_trans(a.drop_first(), b.drop_first(), c.drop_first());
    }
}

/// Every two header pairs compare one way or the other.
pub proof fn lemma_header_le_total(a: (String, String), b: (String, String))
    ensures
        header_le(a, b) || header_le(b, a),
{
    lemma_chars_le_total(a.0@, b.0@);
    lemma_chars_le_total(a.1@, b.1@);
}

/// The header order is transitive.
pub proof fn lemma_header_le_trans(a: (String, String), b: (String, String), c: (String, String))
    requires
        header_le(a, b),
        header_le(b, c),
    ensures
        header_le(a, c),
{
    assert(chars_le(a.0@, b.0@));
    assert(chars_le(b.0@, c.0@));
    lemma_chars_le_trans(a.0@, b.0@, c.0@);
    if chars_le(c.0@, a.0@) {
        lemma_chars_le_trans(c.0@, a.0@, b.0@);
        lemma_chars_le_trans(b.0@, c.0@, a.0@);
        lemma_chars_le_trans(a.1@, b.1@, c.1@);
    }
}

/// The sequence is in the canonical order: every earlier pair compares at
/// or before every later one.
pub open spec fn headers_sorted(s: Seq<(String, String)>) -> bool {
    forall|x: int, y: int| 0 <= x < y < s.len() ==> #[trigger] header_le(s[x], s[y])
}

fn str_chars_le(a: &str, b: &str) -> (r: bool)
    ensures
        r == chars_le(a@, b@),
{
    let na = a.unicode_len();
    let nb = b.unicode_len();
    let mut i: usize = 0;
    proof {
        assert(a@.skip(0) =~= a@);
        assert(b@.skip(0) =~= b@);
    }
    loop
        invariant
            i <= na,
            i <= nb,
            na == a@.len(),
            nb == b@.len(),
            chars_le(a@, b@) == chars_le(a@.skip(i as int), b@.skip(i as int)),
        decreases na - i,
    {
        if i == na {
            return true;
        }
        if i == nb {
            return false;
        }
        let ca = a.get_char(i) as u32;
        let cb = b.get_char(i) as u32;
        proof {
            assert(a@.skip(i as int)[0] == a@[i as int]);
            assert(b@.skip(i as int)[0] == b@[i as int]);
        }
        if ca < cb {
            return true;
        }
        if cb < ca {
            return false;
        }
        proof {
            assert(a@.skip(i as int).drop_first() =~= a@.skip(i + 1));
            assert(b@.skip(i as int).drop_first() =~= b@.skip(i + 1));
        }
        i = i + 1;
    }
}

fn header_le_exec(a: &(String, String), b: &(String, String)) -> (r: bool)
    ensures
        r == header_le(*a, *b),
{
    let name_ab = str_chars_le(a.0.as_str(), b.0.as_str());
    let name_ba = str_chars_le(b.0.as_str(), a.0.as_str());
    if name_ab && name_ba {
        str_chars_le(a.1.as_str(), b.1.as_str())
    } else {
        name_ab
    }
}

/// Brings header pairs into the canonical order. The result holds exactly
/// the given pairs — the same multiset — sorted by name, then value.
pub fn sorted_headers(hs: Vec<(String, String)>) -> (r: Vec<(String, String)>)
    ensures
        headers_sorted(r@),
        r@.to_multiset() == hs@.to_multiset(),
        r@.len() == hs@.len(),
{
    broadcast use vstd::seq_lib::group_to_multiset_ensures;
    broadcast use vstd::multiset::group_multiset_axioms;
    broadcast use vstd::multiset::group_multiset_properties;

    let ghost orig = hs@;
    let mut rest = hs;
    let mut out: Vec<(String, String)> = Vec::new();
    proof {
        assert(out@.to_multiset().add(rest@.to_multiset()) =~= orig.to_multiset());
    }
    while rest.len() > 0
        invariant
            out@.to_multiset().add(rest@.to_multiset()) == orig.to_multiset(),
            headers_sorted(out@),
            forall|x: int, y: int|
                0 <= x < out@.len() && 0 <= y < rest@.len() ==> #[trigger] header_le(
                    out@[x],
                    rest@[y],
                ),
        decreases rest@.len(),
    {
        let mut m: usize = 0;
        let mut i: usize = 1;
        proof {
            lemma_header_le_total(rest@[0], rest@[0]);
        }
        while i < rest.len()
            invariant
                m < i <= rest@.len(),
                rest@.len() > 0,
                forall|y: int| 0 <= y < i ==> #[trigger] header_le(rest@[m as int], rest@[y]),
            decreases rest@.len() - i,
        {
            if !header_le_exec(&rest[m], &rest[i]) {
                proof {
                    lemma_header_le_total(rest@[m as int], rest@[i as int]);
                    assert forall|y: int|
                        0 <= y < i + 1 implies #[trigger] header_le(
                        rest@[i as int],
                        rest@[y],
                    ) by {
                        if y < i {
                            lemma_header_le_trans(rest@[i as int], rest@[m as int], rest@[y]);
                        } else {
                            lemma_header_le_total(rest@[i as int], rest@[i as int]);
                        }
                    }
                }
                m = i;
            }
            i = i + 1;
        }
        let ghost rest0 = rest@;
        let ghost out0 = out@;
        let e = rest.remove(m);
        out.push(e);
        proof {
            assert(rest@ == rest0.remove(m as int));
            assert(out@ == out0.push(e));
            assert(e == rest0[m as int]);
            rest0.to_multiset_ensures();
            out0.to_multiset_ensures();
            assert(rest@.to_multiset() =~= rest0.to_multiset().remove(e));
            assert(out@.to_multiset() =~= out0.to_multiset().insert(e));
            assert(rest0.contains(e));
            assert(rest0.to_multiset().count(e) > 0);
            assert(out@.to_multiset().add(rest@.to_multiset()) =~= orig.to_multiset());
            assert forall|x: int, y: int|
                0 <= x < y < out@.len() implies #[trigger] header_le(out@[x], out@[y]) by {
                if y < out@.len() - 1 {
                    assert(out@[x] == out0[x] && out@[y] == out0[y]);
                } else {
                    assert(out@[y] == e);
                    assert(header_le(out0[x], rest0[m as int]));
                }
            }
            assert forall|x: int, y: int|
                0 <= x < out@.len() && 0 <= y < rest@.len() implies #[trigger] header_le(
                out@[x],
                rest@[y],
            ) by {
                let oy = if y < m {
                    y
                } else {
                    y + 1
                };
                assert(rest@[y] == rest0[oy]);
                if x < out@.len() - 1 {
                    assert(out@[x] == out0[x]);
                    assert(header_le(out0[x], rest0[oy]));
                } else {
                    assert(out@[x] == e);
                    assert(header_le(rest0[m as int], rest0[oy]));
                }
            }
        }
    }
    proof {
        rest@.to_multiset_ensures();
        out@.to_multiset_ensures();
        orig.to_multiset_ensures();
        assert forall|x: (String, String)|
            rest@.to_multiset().count(x) == 0 by {
            assert(!rest@.contains(x));
        }
        assert(out@.to_multiset() =~= orig.to_multiset());
        assert(out@.to_multiset().len() == out@.len());
        assert(orig.to_multiset().len() == orig.len());
    }
    out
}

proof fn lemma_char_cast_injective(a: char, b: char)
    requires
        a as u32 == b as u32,
    ensures
        a == b,
{
}

/// The text order is antisymmetric: two texts at or before each other are
/// the same text.
pub proof fn lemma_chars_le_antisym(a: Seq<char>, b: Seq<char>)
    requires
        chars_le(a, b),
        chars_le(b, a),
    ensures
        a == b,
    decreases a.len(),
{
    if a.len() == 0 {
        assert(b.len() == 0);
        assert(a =~= b);
    } else {
        assert(b.len() > 0);
        assert(!((a[0] as u32) < (b[0] as u32)));
        assert(!((b[0] as u32) < (a[0] as u32)));
        assert(a[0] as u32 == b[0] as u32);
        lemma_char_cast_injective(a[0], b[0]);
        assert(a[0] == b[0]);
        lemma_chars_le_antisym(a.drop_first(), b.drop_first());
        assert forall|i: int| 0 <= i < a.len() implies a[i] == b[i] by {
            if i > 0 {
                assert(a[i] == a.drop_first()[i - 1]);
                assert(b[i] == b.drop_first()[i - 1]);
            }
        }
        assert(a =~= b);
    }
}

/// The texts of a header pair.
pub open spec fn pair_view(p: (String, String)) -> (Seq<char>, Seq<char>) {
    (p.0@, p.1@)
}

/// The header order is antisymmetric at the level of the texts: two pairs
/// at or before each other carry the same name and the same value.
pub proof fn lemma_header_le_antisym(a: (String, String), b: (String, String))
    requires
        header_le(a, b),
        header_le(b, a),
    ensures
        pair_view(a) == pair_view(b),
{
    if chars_le(a.0@, b.0@) && chars_le(b.0@, a.0@) {
        lemma_chars_le_antisym(a.0@, b.0@);
        lemma_chars_le_antisym(a.1@, b.1@);
    }
}

/// The texts of a whole header sequence.
pub open spec fn header_views(s: Seq<(String, String)>) -> Seq<(Seq<char>, Seq<char>)> {
    s.map_values(|p: (String, String)| (p.0@, p.1@))
}

/// The canonical order is canonical: two sorted arrangements of the same
/// pairs agree text for text. With `sorted_headers` this makes the cache
/// key order-independent — the same header set in any order forms one key.
pub proof fn lemma_canonical_form_unique(s1: Seq<(String, String)>, s2: Seq<(String, String)>)
    requires
        headers_sorted(s1),
        headers_sorted(s2),
        s1.to_multiset() == s2.to_multiset(),
    ensures
        header_views(s1) == header_views(s2),
    decreases s1.len(),
{
    s1.to_multiset_ensures();
    s2.to_multiset_ensures();
    if s1.len() == 0 {
        assert(s2.len() == 0);
        assert(header_views(s1) =~= header_views(s2));
    } else {
        assert(s2.len() == s1.len());
        let e = s1[0];
        assert(s1.contains(e));
        assert(s2.to_multiset().count(e) > 0);
        assert(s2.contains(e));
        let j = choose|j: int| 0 <= j < s2.len() && s2[j] == e;
        let e2 = s2[0];
        assert(s2.contains(e2));
        assert(s1.to_multiset().count(e2) > 0);
        assert(s1.contains(e2));
        let i = choose|i: int| 0 <= i < s1.len() && s1[i] == e2;
        if j != 0 && i != 0 {
            assert(header_le(s1[0], s1[i]));
            assert(header_le(s2[0], s2[j]));
            lemma_header_le_antisym(e, e2);
        }
        assert(pair_view(e) == pair_view(e2));
        assert forall|k: int| 0 <= k <= j implies pair_view(s2[k]) == pair_view(e) by {
            if 0 < k < j {
                assert(header_le(s2[0], s2[k]));
                assert(header_le(s2[k], s2[j]));
                assert(header_le(s2[j], s2[k]));
                lemma_header_le_antisym(s2[k], s2[j]);
            }
        }
        let t1 = s1.drop_first();
        let t2 = s2.remove(j);
        assert(s1.remove(0) =~= t1);
        assert(t1.to_multiset() =~= s1.to_multiset().remove(e));
        assert(t2.to_multiset() =~= s2.to_multiset().remove(e));
        assert forall|x: int, y: int|
            0 <= x < y < t1.len() implies #[trigger] header_le(t1[x], t1[y]) by {
            assert(t1[x] == s1[x + 1]);
            assert(t1[y] == s1[y + 1]);
            assert(header_le(s1[x + 1], s1[y + 1]));
        }
        assert forall|x: int, y: int|
            0 <= x < y < t2.len() implies #[trigger] header_le(t2[x], t2[y]) by {
            let ox = if x < j {
                x
            } else {
                x + 1
            };
            let oy = if y < j {
                y
            } else {
                y + 1
            };
            assert(t2[x] == s2[ox]);
            assert(t2[y] == s2[oy]);
            assert(header_le(s2[ox], s2[oy]));
        }
        lemma_canonical_form_unique(t1, t2);
        assert forall|m: int|
            0 <= m < s1.len() implies #[trigger] header_views(s1)[m] == header_views(s2)[m] by {
            if m == 0 {
                assert(pair_view(s1[0]) == pair_view(s2[0]));
            } else {
                assert(header_views(s1)[m] == pair_view(t1[m - 1]));
                assert(header_views(t1)[m - 1] == pair_view(t1[m - 1]));
                assert(header_views(t2)[m - 1] == pair_view(t2[m - 1]));
                if m <= j {
                    assert(t2[m - 1] == s2[m - 1]);
                    assert(pair_view(s2[m - 1]) == pair_view(e));
                    assert(pair_view(s2[m]) == pair_view(e));
                } else {
                    assert(t2[m - 1] == s2[m]);
                }
            }
        }
        assert(header_views(s1) =~= header_views(s2));
    }
}

} // verus!
