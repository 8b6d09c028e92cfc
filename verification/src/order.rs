//! Byte-wise (code point) order of strings, as `String`'s `Ord` compares
//! them, and sorted vectors of distinct strings.

use vstd::prelude::*;
use vstd::utf8::*;
use vstd::string::*;

verus! {

broadcast use vstd::string::group_string_axioms;

/// `a` sorts strictly before `b`: lexicographic order on code points.
pub open spec fn lex_lt(a: Seq<char>, b: Seq<char>) -> bool
    decreases a.len(),
{
    if a.len() == 0 {
        b.len() > 0
    } else if b.len() == 0 {
        false
    } else if (a[0] as u32) < (b[0] as u32) {
        true
    } else if a[0] == b[0] {
        lex_lt(a.drop_first(), b.drop_first())
    } else {
        false
    }
}

/// The character sequences of a sequence of strings.
pub open spec fn views(v: Seq<String>) -> Seq<Seq<char>> {
    Seq::new(v.len(), |i: int| v[i]@)
}

/// Strictly increasing, hence free of duplicates.
pub open spec fn strictly_sorted(s: Seq<Seq<char>>) -> bool {
    forall|i: int, j: int| 0 <= i < j < s.len() ==> lex_lt(s[i], s[j])
}

pub proof fn lemma_lex_irreflexive(a: Seq<char>)
    ensures
        !lex_lt(a, a),
    decreases a.len(),
{
    if a.len() > 0 {
        lemma_lex_irreflexive(a.drop_first());
    }
}

pub proof fn lemma_lex_transitive(a: Seq<char>, b: Seq<char>, c: Seq<char>)
    requires
        lex_lt(a, b),
        lex_lt(b, c),
    ensures
        lex_lt(a, c),
    decreases a.len(),
{
    if a.len() > 0 && b.len() > 0 && c.len() > 0 {
        if a[0] == b[0] && b[0] == c[0] {
            lemma_lex_transitive(a.drop_first(), b.drop_first(), c.drop_first());
        }
    }
}

pub proof fn lemma_lex_total(a: Seq<char>, b: Seq<char>)
    requires
        a != b,
    ensures
        lex_lt(a, b) || lex_lt(b, a),
    decreases a.len(),
{
    if a.len() > 0 && b.len() > 0 {
        if a[0] == b[0] {
            if a.drop_first() == b.drop_first() {
                assert(a =~= seq![a[0]] + a.drop_first());
                assert(b =~= seq![b[0]] + b.drop_first());
            }
            lemma_lex_total(a.drop_first(), b.drop_first());
        } else {
            vstd::utf8::char_u32_cast(a[0], a[0] as u32);
            vstd::utf8::char_u32_cast(b[0], b[0] as u32);
        }
    } else if a.len() == 0 && b.len() == 0 {
        assert(a =~= b);
    }
}

pub proof fn lemma_lex_asymmetric(a: Seq<char>, b: Seq<char>)
    requires
        lex_lt(a, b),
    ensures
        !lex_lt(b, a),
{
    if lex_lt(b, a) {
        lemma_lex_transitive(a, b, a);
        lemma_lex_irreflexive(a);
    }
}

/// A common prefix does not change the order.
proof fn lemma_lex_skip(a: Seq<char>, b: Seq<char>, i: int)
    requires
        0 <= i <= a.len(),
        i <= b.len(),
        forall|j: int| 0 <= j < i ==> a[j] == b[j],
    ensures
        lex_lt(a, b) == lex_lt(a.skip(i), b.skip(i)),
    decreases i,
{
    if i > 0 {
        assert(a[0] == b[0]);
        lemma_lex_skip(a.drop_first(), b.drop_first(), i - 1);
        assert(a.drop_first().skip(i - 1) =~= a.skip(i));
        assert(b.drop_first().skip(i - 1) =~= b.skip(i));
    } else {
        assert(a.skip(0) =~= a);
        assert(b.skip(0) =~= b);
    }
}

/// Whether `a` sorts strictly before `b`, for ASCII strings.
pub fn ascii_lt(a: &str, b: &str) -> (r: bool)
    requires
        is_ascii_chars(a@),
        is_ascii_chars(b@),
    ensures
        r == lex_lt(a@, b@),
{
    let x = a.as_bytes();
    let y = b.as_bytes();
    proof {
        is_ascii_chars_encode_utf8(a@);
        is_ascii_chars_encode_utf8(b@);
        is_ascii_chars_nat_bound(a@);
        is_ascii_chars_nat_bound(b@);
    }
    let mut i: usize = 0;
    while i < x.len() && i < y.len()
        invariant
            x@ == encode_utf8(a@),
            y@ == encode_utf8(b@),
            x@.len() == a@.len(),
            y@.len() == b@.len(),
            is_ascii_chars(a@),
            is_ascii_chars(b@),
            0 <= i <= a@.len(),
            i <= b@.len(),
            forall|j: int| 0 <= j < i ==> a@[j] == b@[j],
        decreases x@.len() - i,
    {
        let ghost ca = a@[i as int];
        let ghost cb = b@[i as int];
        proof {
            is_ascii_chars_encode_utf8(a@);
            is_ascii_chars_encode_utf8(b@);
            is_ascii_chars_nat_bound(a@);
            is_ascii_chars_nat_bound(b@);
            assert(a@[i as int] as u8 == encode_utf8(a@)[i as int]);
            assert(b@[i as int] as u8 == encode_utf8(b@)[i as int]);
            assert((a@.index(i as int) as nat) < 128);
            assert((b@.index(i as int) as nat) < 128);
        }
        assert((ca as u8) as u32 == ca as u32);
        assert((cb as u8) as u32 == cb as u32);
        if x[i] < y[i] {
            proof {
                lemma_lex_skip(a@, b@, i as int);
                assert(a@.skip(i as int)[0] == ca);
                assert(b@.skip(i as int)[0] == cb);
            }
            return true;
        }
        if y[i] < x[i] {
            proof {
                lemma_lex_skip(a@, b@, i as int);
                assert(a@.skip(i as int)[0] == ca);
                assert(b@.skip(i as int)[0] == cb);
            }
            return false;
        }
        proof {
            assert(ca as u32 == cb as u32);
            vstd::utf8::char_u32_cast(ca, ca as u32);
            vstd::utf8::char_u32_cast(cb, cb as u32);
        }
        i = i + 1;
    }
    proof {
        lemma_lex_skip(a@, b@, i as int);
    }
    x.len() < y.len()
}

/// Inserts `s` into a strictly sorted vector of ASCII strings that lacks it.
pub fn insert_sorted(v: &mut Vec<String>, s: String)
    requires
        strictly_sorted(views(old(v)@)),
        !views(old(v)@).contains(s@),
        is_ascii_chars(s@),
        forall|i: int| 0 <= i < old(v)@.len() ==> is_ascii_chars(#[trigger] old(v)@[i]@),
    ensures
        strictly_sorted(views(final(v)@)),
        views(final(v)@).to_set() == views(old(v)@).to_set().insert(s@),
        final(v)@.len() == old(v)@.len() + 1,
        forall|i: int| 0 <= i < final(v)@.len() ==> is_ascii_chars(#[trigger] final(v)@[i]@),
{
    let ghost w = views(v@);
    let mut p: usize = 0;
    while p < v.len() && !ascii_lt(s.as_str(), v[p].as_str())
        invariant
            v@ == old(v)@,
            w == views(v@),
            0 <= p <= v@.len(),
            strictly_sorted(w),
            !w.contains(s@),
            is_ascii_chars(s@),
            forall|i: int| 0 <= i < v@.len() ==> is_ascii_chars(#[trigger] v@[i]@),
            forall|j: int| 0 <= j < p ==> lex_lt(#[trigger] w[j], s@),
        decreases v@.len() - p,
    {
        proof {
            assert(w[p as int] == v@[p as int]@);
            if w[p as int] == s@ {
                assert(w.contains(s@));
            }
            lemma_lex_total(w[p as int], s@);
        }
        p = p + 1;
    }
    let ghost sv = s@;
    v.insert(p, s);
    proof {
        let n = views(v@);
        assert(n =~= w.insert(p as int, sv));
        assert forall|i: int, j: int| 0 <= i < j < n.len() implies lex_lt(n[i], n[j]) by {
            if j < p {
                assert(n[i] == w[i] && n[j] == w[j]);
            } else if j == p {
                assert(n[i] == w[i]);
            } else if i == p {
                assert(n[j] == w[j - 1]);
                assert(lex_lt(sv, w[p as int])) by {
                    assert(w[p as int] == old(v)@[p as int]@);
                }
                if j - 1 > p {
                    lemma_lex_transitive(sv, w[p as int], w[j - 1]);
                }
            } else if i < p {
                assert(n[i] == w[i] && n[j] == w[j - 1]);
            } else {
                assert(n[i] == w[i - 1] && n[j] == w[j - 1]);
            }
        }
        w.insert_ensures(p as int, sv);
        assert(n.to_set() =~= w.to_set().insert(sv)) by {
            assert forall|x: Seq<char>| n.to_set().contains(x) <==> w.to_set().insert(sv).contains(x) by {
                if n.contains(x) {
                    let k = choose|k: int| 0 <= k < n.len() && n[k] == x;
                    if k < p {
                        assert(w[k] == x);
                    } else if k > p {
                        assert(w[k - 1] == x);
                    }
                }
                if w.contains(x) {
                    let k = choose|k: int| 0 <= k < w.len() && w[k] == x;
                    if k < p {
                        assert(n[k] == x);
                    } else {
                        assert(n[k + 1] == x);
                    }
                }
                if x == sv {
                    assert(n[p as int] == x);
                }
            }
        }
        assert forall|i: int| 0 <= i < v@.len() implies is_ascii_chars(#[trigger] v@[i]@) by {
            if i < p {
                assert(v@[i] == old(v)@[i]);
            } else if i > p {
                assert(v@[i] == old(v)@[i - 1]);
            }
        }
    }
}

} // verus!
