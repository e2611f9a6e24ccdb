//! Sorting by a string key, in the order `str::cmp` gives (code point by code point).

use vstd::prelude::*;
use vstd::multiset::Multiset;

verus! {

broadcast use vstd::seq_lib::group_seq_properties;

/// `a` comes before or equals `b` in lexicographic code point order.
pub open spec fn lex_le(a: Seq<char>, b: Seq<char>) -> bool
    decreases a.len(),
{
    if a.len() == 0 {
        true
    } else if b.len() == 0 {
        false
    } else if a[0] < b[0] {
        true
    } else if a[0] > b[0] {
        false
    } else {
        lex_le(a.drop_first(), b.drop_first())
    }
}

pub proof fn lemma_lex_refl(a: Seq<char>)
    ensures lex_le(a, a),
    decreases a.len(),
{
    if a.len() > 0 {
        lemma_lex_refl(a.drop_first());
    }
}

pub proof fn lemma_lex_total(a: Seq<char>, b: Seq<char>)
    ensures lex_le(a, b) || lex_le(b, a),
    decreases a.len(),
{
    if a.len() > 0 && b.len() > 0 && a[0] == b[0] {
        lemma_lex_total(a.drop_first(), b.drop_first());
    }
}

pub proof fn lemma_lex_trans(a: Seq<char>, b: Seq<char>, c: Seq<char>)
    requires lex_le(a, b), lex_le(b, c),
    ensures lex_le(a, c),
    decreases a.len(),
{
    if a.len() > 0 && b.len() > 0 && c.len() > 0 && a[0] == b[0] && b[0] == c[0] {
        lemma_lex_trans(a.drop_first(), b.drop_first(), c.drop_first());
    }
}

pub proof fn lemma_lex_antisym(a: Seq<char>, b: Seq<char>)
    requires lex_le(a, b), lex_le(b, a),
    ensures a == b,
    decreases a.len(),
{
    if a.len() > 0 && b.len() > 0 {
        lemma_lex_antisym(a.drop_first(), b.drop_first());
        assert(a =~= seq![a[0]] + a.drop_first());
        assert(b =~= seq![b[0]] + b.drop_first());
    }
}

/// `a <= b` in the order of `str::cmp`.
pub fn str_le(a: &str, b: &str) -> (r: bool)
    ensures r == lex_le(a@, b@),
{
    let va = crate::text::chars_of(a);
    let vb = crate::text::chars_of(b);
    let mut i: usize = 0;
    assert(a@.subrange(0, a@.len() as int) == a@);
    assert(b@.subrange(0, b@.len() as int) == b@);
    while i < va.len() && i < vb.len() && va[i] == vb[i]
        invariant
            i <= va.len(), i <= vb.len(), va@ == a@, vb@ == b@,
            lex_le(a@, b@) == lex_le(a@.subrange(i as int, a@.len() as int), b@.subrange(i as int, b@.len() as int)),
        decreases va.len() - i,
    {
        assert(a@.subrange(i as int, a@.len() as int).drop_first() == a@.subrange(i + 1, a@.len() as int));
        assert(b@.subrange(i as int, b@.len() as int).drop_first() == b@.subrange(i + 1, b@.len() as int));
        i += 1;
    }
    if i == va.len() {
        true
    } else if i == vb.len() {
        false
    } else {
        va[i] < vb[i]
    }
}

/// A value with a string key.
pub trait Keyed {
    spec fn key_view(&self) -> Seq<char>;

    fn key(&self) -> (r: &str)
        ensures r@ == self.key_view();
}

/// The keys are in non-decreasing order.
pub open spec fn sorted_by_key<T: Keyed>(s: Seq<T>) -> bool {
    forall|i: int, j: int| 0 <= i < j < s.len() ==> lex_le(#[trigger] s[i].key_view(), #[trigger] s[j].key_view())
}

/// Sorts by key; the result holds the same values.
pub fn sort_by_key<T: Keyed>(v: Vec<T>) -> (r: Vec<T>)
    ensures
        sorted_by_key(r@),
        r@.to_multiset() == v@.to_multiset(),
        r@.len() == v@.len(),
{
    let mut rest = v;
    let ghost orig = rest@;
    let mut out: Vec<T> = Vec::new();
    proof {
        orig.to_multiset_ensures();
        out@.to_multiset_ensures();
        assert(out@.to_multiset() =~= Multiset::empty());
    }
    while rest.len() > 0
        invariant
            sorted_by_key(out@),
            forall|i: int, j: int| 0 <= i < out@.len() && 0 <= j < rest@.len()
                ==> lex_le(#[trigger] out@[i].key_view(), #[trigger] rest@[j].key_view()),
            out@.to_multiset().add(rest@.to_multiset()) == orig.to_multiset(),
            out@.len() + rest@.len() == orig.len(),
        decreases rest@.len(),
    {
        let mut best: usize = 0;
        let mut k: usize = 1;
        proof { lemma_lex_refl(rest@[0].key_view()); }
        while k < rest.len()
            invariant
                best < rest.len(), k <= rest.len(), 1 <= k,
                forall|j: int| 0 <= j < k ==> lex_le(rest@[best as int].key_view(), #[trigger] rest@[j].key_view()),
            decreases rest.len() - k,
        {
            if !str_le(rest[best].key(), rest[k].key()) {
                proof {
                    lemma_lex_total(rest@[best as int].key_view(), rest@[k as int].key_view());
                    assert forall|j: int| 0 <= j < k + 1 implies lex_le(rest@[k as int].key_view(), #[trigger] rest@[j].key_view()) by {
                        if j == k {
                            lemma_lex_refl(rest@[k as int].key_view());
                        } else {
                            lemma_lex_trans(rest@[k as int].key_view(), rest@[best as int].key_view(), rest@[j].key_view());
                        }
                    }
                }
                best = k;
            }
            k += 1;
        }
        let ghost old_rest = rest@;
        let ghost old_out = out@;
        let x = rest.remove(best);
        proof {
            old_rest.to_multiset_ensures();
            old_out.to_multiset_ensures();
        }
        out.push(x);
        proof {
            assert(out@ == old_out.push(x));
            assert(rest@ == old_rest.remove(best as int));
            assert(old_rest.to_multiset().count(x) > 0);
            assert(out@.to_multiset().add(rest@.to_multiset()) =~= old_out.to_multiset().add(old_rest.to_multiset()));
            assert forall|i: int, j: int| 0 <= i < out@.len() && 0 <= j < rest@.len()
                implies lex_le(#[trigger] out@[i].key_view(), #[trigger] rest@[j].key_view()) by {
                let oj = if j < best { j } else { j + 1 };
                assert(rest@[j] == old_rest[oj]);
                if i < old_out.len() {
                    assert(out@[i] == old_out[i]);
                } else {
                    assert(out@[i] == x);
                }
            }
            assert forall|i: int, j: int| 0 <= i < j < out@.len()
                implies lex_le(#[trigger] out@[i].key_view(), #[trigger] out@[j].key_view()) by {
                if j == old_out.len() {
                    assert(out@[i] == old_out[i]);
                    assert(old_rest[best as int] == x);
                } else {
                    assert(out@[i] == old_out[i]);
                    assert(out@[j] == old_out[j]);
                }
            }
        }
    }
    proof {
        rest@.to_multiset_ensures();
        assert(rest@.to_multiset() =~= Multiset::empty());
        assert(out@.to_multiset().add(rest@.to_multiset()) =~= out@.to_multiset());
    }
    out
}

} // verus!
