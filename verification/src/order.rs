//! Byte-lexicographic order (the order of `str` and `[u8]` in Rust) and the
//! canonical, strictly ascending arrangement of keyed items.

use vstd::prelude::*;
use vstd::multiset::Multiset;

verus! {

broadcast use vstd::seq_lib::group_to_multiset_ensures;

/// `a` comes strictly before `b` in byte-lexicographic order.
pub open spec fn lex_lt(a: Seq<u8>, b: Seq<u8>) -> bool
    decreases a.len(),
{
    if a.len() == 0 {
        b.len() > 0
    } else if b.len() == 0 {
        false
    } else if a[0] != b[0] {
        a[0] < b[0]
    } else {
        lex_lt(a.drop_first(), b.drop_first())
    }
}

/// No byte string comes before itself.
pub proof fn lemma_lex_irreflexive(a: Seq<u8>)
    ensures
        !lex_lt(a, a),
    decreases a.len(),
{
    if a.len() > 0 {
        lemma_lex_irreflexive(a.drop_first());
    }
}

/// Byte-lexicographic order is transitive.
pub proof fn lemma_lex_transitive(a: Seq<u8>, b: Seq<u8>, c: Seq<u8>)
    requires
        lex_lt(a, b),
        lex_lt(b, c),
    ensures
        lex_lt(a, c),
    decreases a.len(),
{
    if a.len() > 0 && b.len() > 0 && c.len() > 0 && a[0] == b[0] && b[0] == c[0] {
        lemma_lex_transitive(a.drop_first(), b.drop_first(), c.drop_first());
    }
}

/// Two different byte strings are ordered one way or the other.
pub proof fn lemma_lex_total(a: Seq<u8>, b: Seq<u8>)
    ensures
        a == b || lex_lt(a, b) || lex_lt(b, a),
    decreases a.len(),
{
    if a.len() > 0 && b.len() > 0 && a[0] == b[0] {
        lemma_lex_total(a.drop_first(), b.drop_first());
        if a.drop_first() == b.drop_first() {
            assert(a =~= seq![a[0]] + a.drop_first());
            assert(b =~= seq![b[0]] + b.drop_first());
        }
    } else if a.len() == 0 && b.len() == 0 {
        assert(a =~= b);
    }
}

proof fn lemma_lex_step(a: Seq<u8>, b: Seq<u8>, i: int)
    requires
        0 <= i < a.len(),
        i < b.len(),
        a[i] == b[i],
    ensures
        lex_lt(a.subrange(i, a.len() as int), b.subrange(i, b.len() as int)) == lex_lt(
            a.subrange(i + 1, a.len() as int),
            b.subrange(i + 1, b.len() as int),
        ),
{
    let x = a.subrange(i, a.len() as int);
    let y = b.subrange(i, b.len() as int);
    assert(x.drop_first() =~= a.subrange(i + 1, a.len() as int));
    assert(y.drop_first() =~= b.subrange(i + 1, b.len() as int));
}

/// Whether `a` comes strictly before `b`.
pub fn lex_less(a: &[u8], b: &[u8]) -> (r: bool)
    ensures
        r == lex_lt(a@, b@),
{
    let mut i: usize = 0;
    assert(a@.subrange(0, a@.len() as int) =~= a@);
    assert(b@.subrange(0, b@.len() as int) =~= b@);
    while i < a.len() && i < b.len()
        invariant
            i <= a@.len(),
            i <= b@.len(),
            lex_lt(a@, b@) == lex_lt(
                a@.subrange(i as int, a@.len() as int),
                b@.subrange(i as int, b@.len() as int),
            ),
        decreases a@.len() - i,
    {
        if a[i] != b[i] {
            return a[i] < b[i];
        }
        proof {
            lemma_lex_step(a@, b@, i as int);
        }
        i = i + 1;
    }
    i < b.len()
}

/// Whether `a` and `b` hold the same bytes.
pub fn bytes_eq(a: &[u8], b: &[u8]) -> (r: bool)
    ensures
        r == (a@ == b@),
{
    if a.len() != b.len() {
        return false;
    }
    let mut i: usize = 0;
    while i < a.len()
        invariant
            a@.len() == b@.len(),
            i <= a@.len(),
            forall|k: int| 0 <= k < i ==> a@[k] == b@[k],
        decreases a@.len() - i,
    {
        if a[i] != b[i] {
            return false;
        }
        i = i + 1;
    }
    assert(a@ =~= b@);
    true
}

/// An item ordered by a pair of byte strings, compared first by `key1`, then by `key2`.
pub trait Keyed {
    spec fn key1(&self) -> Seq<u8>;

    spec fn key2(&self) -> Seq<u8>;

    fn key1_bytes(&self) -> (r: &[u8])
        ensures
            r@ == self.key1(),
    ;

    fn key2_bytes(&self) -> (r: &[u8])
        ensures
            r@ == self.key2(),
    ;
}

/// `x` comes strictly before `y` by the pair (`key1`, `key2`).
pub open spec fn key_lt<T: Keyed>(x: T, y: T) -> bool {
    lex_lt(x.key1(), y.key1()) || (x.key1() == y.key1() && lex_lt(x.key2(), y.key2()))
}

/// `x` and `y` carry the same pair of keys.
pub open spec fn same_key<T: Keyed>(x: T, y: T) -> bool {
    x.key1() == y.key1() && x.key2() == y.key2()
}

/// Each item comes strictly before every later one.
pub open spec fn strictly_sorted<T: Keyed>(s: Seq<T>) -> bool {
    forall|i: int, j: int| 0 <= i < j < s.len() ==> key_lt(#[trigger] s[i], #[trigger] s[j])
}

/// No two items carry the same pair of keys.
pub open spec fn distinct_keys<T: Keyed>(s: Seq<T>) -> bool {
    forall|i: int, j: int| 0 <= i < s.len() && 0 <= j < s.len() && i != j ==> !same_key(#[trigger] s[i], #[trigger] s[j])
}

pub proof fn lemma_key_lt_irreflexive<T: Keyed>(x: T)
    ensures
        !key_lt(x, x),
{
    lemma_lex_irreflexive(x.key1());
    lemma_lex_irreflexive(x.key2());
}

pub proof fn lemma_key_lt_transitive<T: Keyed>(x: T, y: T, z: T)
    requires
        key_lt(x, y),
        key_lt(y, z),
    ensures
        key_lt(x, z),
{
    if lex_lt(x.key1(), y.key1()) && lex_lt(y.key1(), z.key1()) {
        lemma_lex_transitive(x.key1(), y.key1(), z.key1());
    } else if lex_lt(x.key1(), y.key1()) {
    } else if lex_lt(y.key1(), z.key1()) {
    } else {
        lemma_lex_transitive(x.key2(), y.key2(), z.key2());
    }
}

pub proof fn lemma_key_lt_total<T: Keyed>(x: T, y: T)
    ensures
        same_key(x, y) || key_lt(x, y) || key_lt(y, x),
{
    lemma_lex_total(x.key1(), y.key1());
    lemma_lex_total(x.key2(), y.key2());
}

/// Two strictly ascending arrangements of the same items are the same sequence.
pub proof fn lemma_sorted_unique<T: Keyed>(a: Seq<T>, b: Seq<T>)
    requires
        strictly_sorted(a),
        strictly_sorted(b),
        a.to_multiset() == b.to_multiset(),
    ensures
        a == b,
    decreases a.len(),
{
    assert(a.to_multiset().len() == a.len());
    assert(b.to_multiset().len() == b.len());
    if a.len() == 0 {
        assert(b.len() == 0);
        assert(a =~= b);
    } else {
        assert(b.len() == a.len());
        assert(a.contains(a[0]));
        assert(b.to_multiset().count(a[0]) > 0);
        assert(b.contains(a[0]));
        assert(b.contains(b[0]));
        assert(a.to_multiset().count(b[0]) > 0);
        assert(a.contains(b[0]));
        let j = choose|j: int| 0 <= j < b.len() && b[j] == a[0];
        let i = choose|i: int| 0 <= i < a.len() && a[i] == b[0];
        if i != 0 && j != 0 {
            assert(key_lt(a[0], a[i]));
            assert(key_lt(b[0], b[j]));
            lemma_key_lt_transitive(a[0], b[0], a[0]);
            lemma_key_lt_irreflexive(a[0]);
        }
        assert(a[0] == b[0]);
        let a1 = a.remove(0);
        let b1 = b.remove(0);
        assert(a1.to_multiset() == a.to_multiset().remove(a[0]));
        assert(b1.to_multiset() == b.to_multiset().remove(b[0]));
        assert forall|p: int, q: int| 0 <= p < q < a1.len() implies key_lt(
            #[trigger] a1[p],
            #[trigger] a1[q],
        ) by {
            assert(a1[p] == a[p + 1]);
            assert(a1[q] == a[q + 1]);
        }
        assert forall|p: int, q: int| 0 <= p < q < b1.len() implies key_lt(
            #[trigger] b1[p],
            #[trigger] b1[q],
        ) by {
            assert(b1[p] == b[p + 1]);
            assert(b1[q] == b[q + 1]);
        }
        lemma_sorted_unique(a1, b1);
        assert(a =~= b) by {
            assert forall|k: int| 0 <= k < a.len() implies a[k] == b[k] by {
                if k > 0 {
                    assert(a[k] == a1[k - 1]);
                    assert(b[k] == b1[k - 1]);
                }
            }
        }
    }
}

/// Arranges items with pairwise distinct keys in strictly ascending key order.
pub fn sort_by_keys<T: Keyed>(v: Vec<T>) -> (r: Vec<T>)
    requires
        distinct_keys(v@),
    ensures
        r@.to_multiset() == v@.to_multiset(),
        strictly_sorted(r@),
{
    let ghost orig = v@;
    let mut src = v;
    let mut out: Vec<T> = Vec::new();
    while src.len() > 0
        invariant
            orig.to_multiset() == out@.to_multiset().add(src@.to_multiset()),
            distinct_keys(src@),
            forall|i: int, j: int|
                0 <= i < out@.len() && 0 <= j < src@.len() ==> !same_key(
                    #[trigger] out@[i],
                    #[trigger] src@[j],
                ),
            strictly_sorted(out@),
        decreases src@.len(),
    {
        let ghost before_src = src@;
        let ghost before_out = out@;
        let x = src.pop().unwrap();
        proof {
            assert(src@ =~= before_src.remove(before_src.len() - 1));
        }
        let xk1 = x.key1_bytes();
        let xk2 = x.key2_bytes();
        let mut pos: usize = 0;
        while pos < out.len()
            invariant
                out@ == before_out,
                pos <= out@.len(),
                xk1@ == x.key1(),
                xk2@ == x.key2(),
                forall|k: int| 0 <= k < pos ==> !key_lt(x, #[trigger] out@[k]),
            ensures
                pos <= out@.len(),
                forall|k: int| 0 <= k < pos ==> !key_lt(x, #[trigger] out@[k]),
                pos < out@.len() ==> key_lt(x, out@[pos as int]),
            decreases out@.len() - pos,
        {
            let yk1 = out[pos].key1_bytes();
            let yk2 = out[pos].key2_bytes();
            let less = lex_less(xk1, yk1) || (bytes_eq(xk1, yk1) && lex_less(xk2, yk2));
            if less {
                break;
            }
            pos = pos + 1;
        }
        let ghost at = pos as int;
        proof {
            assert forall|k: int| 0 <= k < at implies key_lt(#[trigger] before_out[k], x) by {
                assert(!same_key(before_out[k], before_src[before_src.len() - 1]));
                lemma_key_lt_total(before_out[k], x);
            }
        }
        out.insert(pos, x);
        proof {
            let o = out@;
            assert(o == before_out.insert(at, x));
            assert forall|i: int, j: int| 0 <= i < j < o.len() implies key_lt(
                #[trigger] o[i],
                #[trigger] o[j],
            ) by {
                if j < at {
                    assert(o[i] == before_out[i] && o[j] == before_out[j]);
                } else if j == at {
                    assert(o[i] == before_out[i]);
                } else if i == at {
                    assert(o[j] == before_out[j - 1]);
                    if j - 1 > at {
                        assert(key_lt(before_out[at], before_out[j - 1]));
                        lemma_key_lt_transitive(x, before_out[at], before_out[j - 1]);
                    }
                } else if i < at {
                    assert(o[i] == before_out[i] && o[j] == before_out[j - 1]);
                    assert(key_lt(before_out[i], x));
                    if j - 1 > at {
                        assert(key_lt(before_out[at], before_out[j - 1]));
                        lemma_key_lt_transitive(x, before_out[at], before_out[j - 1]);
                    }
                    lemma_key_lt_transitive(before_out[i], x, before_out[j - 1]);
                } else {
                    assert(o[i] == before_out[i - 1] && o[j] == before_out[j - 1]);
                }
            }
            vstd::seq_lib::to_multiset_insert(before_out, at, x);
            assert forall|i: int, j: int|
                0 <= i < o.len() && 0 <= j < src@.len() implies !same_key(
                #[trigger] o[i],
                #[trigger] src@[j],
            ) by {
                assert(src@[j] == before_src[j]);
                if i < at {
                    assert(o[i] == before_out[i]);
                } else if i > at {
                    assert(o[i] == before_out[i - 1]);
                }
            }
            assert forall|i: int, j: int|
                0 <= i < src@.len() && 0 <= j < src@.len() && i != j implies !same_key(
                #[trigger] src@[i],
                #[trigger] src@[j],
            ) by {
                assert(src@[i] == before_src[i]);
                assert(src@[j] == before_src[j]);
            }
        }
    }
    proof {
        assert(src@ =~= Seq::<T>::empty());
        assert(src@.to_multiset() =~= Multiset::<T>::empty());
        assert(out@.to_multiset().add(Multiset::empty()) =~= out@.to_multiset());
    }
    out
}


/// Each item comes no later than every later one: none is strictly before an earlier one.
pub open spec fn sorted_keys<T: Keyed>(s: Seq<T>) -> bool {
    forall|i: int, j: int| 0 <= i < j < s.len() ==> !key_lt(#[trigger] s[j], #[trigger] s[i])
}

/// Mapping two sequences with the same items gives sequences with the same items.
pub proof fn lemma_multiset_map<A, B>(a: Seq<A>, b: Seq<A>, f: spec_fn(A) -> B)
    requires
        a.to_multiset() == b.to_multiset(),
    ensures
        a.map_values(f).to_multiset() == b.map_values(f).to_multiset(),
    decreases a.len(),
{
    assert(a.to_multiset().len() == a.len());
    assert(b.to_multiset().len() == b.len());
    if a.len() == 0 {
        assert(b.len() == 0);
        assert(a.map_values(f) =~= b.map_values(f));
    } else {
        let x = a[0];
        assert(a.to_multiset().count(x) > 0);
        assert(b.contains(x));
        let j = choose|j: int| 0 <= j < b.len() && b[j] == x;
        let a1 = a.remove(0);
        let b1 = b.remove(j);
        assert(a1.to_multiset() == a.to_multiset().remove(x));
        assert(b1.to_multiset() == b.to_multiset().remove(x));
        lemma_multiset_map(a1, b1, f);
        let fa = a.map_values(f);
        let fb = b.map_values(f);
        assert(a1.map_values(f) =~= fa.remove(0));
        assert(b1.map_values(f) =~= fb.remove(j));
        assert(fa.remove(0).to_multiset() == fa.to_multiset().remove(f(x)));
        assert(fb.remove(j).to_multiset() == fb.to_multiset().remove(f(x)));
        assert(fa.to_multiset().count(f(x)) > 0) by {
            assert(fa[0] == f(x));
        }
        assert(fb.to_multiset().count(f(x)) > 0) by {
            assert(fb[j] == f(x));
        }
        assert(fa.to_multiset() =~= fa.to_multiset().remove(f(x)).insert(f(x)));
        assert(fb.to_multiset() =~= fb.to_multiset().remove(f(x)).insert(f(x)));
    }
}

/// Arranges items in ascending key order; items with equal keys may come in any order.
pub fn sort_by_keys_nonstrict<T: Keyed>(v: Vec<T>) -> (r: Vec<T>)
    ensures
        r@.to_multiset() == v@.to_multiset(),
        sorted_keys(r@),
{
    let ghost orig = v@;
    let mut src = v;
    let mut out: Vec<T> = Vec::new();
    while src.len() > 0
        invariant
            orig.to_multiset() == out@.to_multiset().add(src@.to_multiset()),
            sorted_keys(out@),
        decreases src@.len(),
    {
        let ghost before_src = src@;
        let ghost before_out = out@;
        let x = src.pop().unwrap();
        proof {
            assert(src@ =~= before_src.remove(before_src.len() - 1));
        }
        let xk1 = x.key1_bytes();
        let xk2 = x.key2_bytes();
        let mut pos: usize = 0;
        while pos < out.len()
            invariant
                out@ == before_out,
                pos <= out@.len(),
                xk1@ == x.key1(),
                xk2@ == x.key2(),
                forall|k: int| 0 <= k < pos ==> !key_lt(x, #[trigger] out@[k]),
            ensures
                pos <= out@.len(),
                forall|k: int| 0 <= k < pos ==> !key_lt(x, #[trigger] out@[k]),
                pos < out@.len() ==> key_lt(x, out@[pos as int]),
            decreases out@.len() - pos,
        {
            let yk1 = out[pos].key1_bytes();
            let yk2 = out[pos].key2_bytes();
            let less = lex_less(xk1, yk1) || (bytes_eq(xk1, yk1) && lex_less(xk2, yk2));
            if less {
                break;
            }
            pos = pos + 1;
        }
        let ghost at = pos as int;
        out.insert(pos, x);
        proof {
            let o = out@;
            assert(o == before_out.insert(at, x));
            assert forall|i: int, j: int| 0 <= i < j < o.len() implies !key_lt(
                #[trigger] o[j],
                #[trigger] o[i],
            ) by {
                if j < at {
                    assert(o[i] == before_out[i] && o[j] == before_out[j]);
                } else if j == at {
                    assert(o[i] == before_out[i]);
                } else if i == at {
                    assert(o[j] == before_out[j - 1]);
                    if key_lt(before_out[j - 1], x) {
                        lemma_key_lt_transitive(before_out[j - 1], x, before_out[at]);
                        if j - 1 == at {
                            lemma_key_lt_irreflexive(before_out[at]);
                        }
                    }
                } else if i < at {
                    assert(o[i] == before_out[i] && o[j] == before_out[j - 1]);
                } else {
                    assert(o[i] == before_out[i - 1] && o[j] == before_out[j - 1]);
                }
            }
            vstd::seq_lib::to_multiset_insert(before_out, at, x);
        }
    }
    proof {
        assert(src@ =~= Seq::<T>::empty());
        assert(src@.to_multiset() =~= Multiset::<T>::empty());
        assert(out@.to_multiset().add(Multiset::empty()) =~= out@.to_multiset());
    }
    out
}

impl Keyed for String {
    open spec fn key1(&self) -> Seq<u8> {
        vstd::utf8::encode_utf8(self@)
    }

    open spec fn key2(&self) -> Seq<u8> {
        Seq::empty()
    }

    fn key1_bytes(&self) -> (r: &[u8]) {
        self.as_str().as_bytes()
    }

    fn key2_bytes(&self) -> (r: &[u8]) {
        let e: &[u8] = &[];
        assert(e@ =~= Seq::<u8>::empty());
        e
    }
}

} // verus!
