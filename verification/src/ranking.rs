use vstd::prelude::*;
use crate::post::Post;

verus! {

/// One step of a stable descending insertion: `x` goes after every
/// element whose key is at least `x`'s key.
pub open spec fn insert_desc(x: (i64, Post), s: Seq<(i64, Post)>) -> Seq<(i64, Post)>
    decreases s.len(),
{
    if s.len() == 0 {
        seq![x]
    } else if s[0].0 >= x.0 {
        seq![s[0]] + insert_desc(x, s.drop_first())
    } else {
        seq![x] + s
    }
}

/// Stable sort by descending key: the elements are inserted in their
/// original order, each after those with an equal key, so equal keys
/// keep their relative order.
pub open spec fn sort_desc(s: Seq<(i64, Post)>) -> Seq<(i64, Post)>
    decreases s.len(),
{
    if s.len() == 0 {
        Seq::<(i64, Post)>::empty()
    } else {
        insert_desc(s.last(), sort_desc(s.drop_last()))
    }
}

/// Keys never grow along the sequence.
pub open spec fn sorted_desc(s: Seq<(i64, Post)>) -> bool {
    forall|i: int, j: int| 0 <= i < j < s.len() ==> s[i].0 >= s[j].0
}

proof fn lemma_insert_desc_props(x: (i64, Post), s: Seq<(i64, Post)>)
    ensures
        insert_desc(x, s).len() == s.len() + 1,
        insert_desc(x, s).to_multiset() == s.to_multiset().insert(x),
        sorted_desc(s) ==> sorted_desc(insert_desc(x, s)),
    decreases s.len(),
{
    broadcast use vstd::seq_lib::group_to_multiset_ensures;

    let out = insert_desc(x, s);
    if s.len() == 0 {
        assert(Seq::<(i64, Post)>::empty().push(x) =~= seq![x]);
        assert(out.to_multiset() =~= s.to_multiset().insert(x));
    } else if s[0].0 >= x.0 {
        let rest = insert_desc(x, s.drop_first());
        lemma_insert_desc_props(x, s.drop_first());
        vstd::seq_lib::lemma_multiset_commutative(seq![s[0]], rest);
        assert(seq![s[0]] =~= Seq::<(i64, Post)>::empty().push(s[0]));
        assert(seq![s[0]] + s.drop_first() =~= s);
        vstd::seq_lib::lemma_multiset_commutative(seq![s[0]], s.drop_first());
        assert(out.to_multiset() =~= s.to_multiset().insert(x));
        if sorted_desc(s) {
            assert(sorted_desc(s.drop_first()));
            assert forall|i: int, j: int| 0 <= i < j < out.len() implies out[i].0 >= out[j].0 by {
                if i == 0 {
                    // out[j] is an element of the inserted tail, so it is
                    // either x or an element of s.drop_first()
                    let e = out[j];
                    assert(rest[j - 1] == e);
                    assert(rest.contains(e));
                    assert(rest.to_multiset().count(e) > 0);
                    if e == x {
                    } else {
                        assert(s.drop_first().to_multiset().count(e) > 0);
                        assert(s.drop_first().contains(e));
                        let k = choose|k: int|
                            0 <= k < s.drop_first().len() && s.drop_first()[k] == e;
                        assert(s[k + 1] == e);
                    }
                } else {
                    assert(out[i] == rest[i - 1]);
                    assert(out[j] == rest[j - 1]);
                }
            }
        }
    } else {
        assert(seq![x] =~= Seq::<(i64, Post)>::empty().push(x));
        vstd::seq_lib::lemma_multiset_commutative(seq![x], s);
        assert(out.to_multiset() =~= s.to_multiset().insert(x));
        if sorted_desc(s) {
            assert forall|i: int, j: int| 0 <= i < j < out.len() implies out[i].0 >= out[j].0 by {
                if i == 0 {
                    if j > 1 {
                        assert(s[0].0 >= s[j - 1].0);
                    }
                } else {
                    assert(out[i] == s[i - 1]);
                    assert(out[j] == s[j - 1]);
                }
            }
        }
    }
}

/// What the stable descending sort guarantees: same length, the same
/// elements with the same multiplicities, and keys in descending
/// order.
pub proof fn lemma_sort_desc_props(s: Seq<(i64, Post)>)
    ensures
        sort_desc(s).len() == s.len(),
        sort_desc(s).to_multiset() == s.to_multiset(),
        sorted_desc(sort_desc(s)),
    decreases s.len(),
{
    broadcast use vstd::seq_lib::group_to_multiset_ensures;

    if s.len() > 0 {
        lemma_sort_desc_props(s.drop_last());
        lemma_insert_desc_props(s.last(), sort_desc(s.drop_last()));
        assert(s.drop_last().push(s.last()) =~= s);
    }
}

/// Every element of the sorted sequence is an element of the original
/// sequence.
pub proof fn lemma_sort_desc_contains(s: Seq<(i64, Post)>, i: int)
    requires
        0 <= i < sort_desc(s).len(),
    ensures
        s.contains(sort_desc(s)[i]),
{
    broadcast use vstd::seq_lib::group_to_multiset_ensures;

    lemma_sort_desc_props(s);
    let e = sort_desc(s)[i];
    assert(sort_desc(s).contains(e));
    assert(sort_desc(s).to_multiset().count(e) > 0);
}

proof fn lemma_insert_desc_at(x: (i64, Post), s: Seq<(i64, Post)>, i: int)
    requires
        0 <= i <= s.len(),
        forall|j: int| 0 <= j < i ==> s[j].0 >= x.0,
        i < s.len() ==> s[i].0 < x.0,
    ensures
        insert_desc(x, s) == s.insert(i, x),
    decreases s.len(),
{
    if i == 0 {
        if s.len() == 0 {
            assert(insert_desc(x, s) =~= s.insert(0, x));
        } else {
            assert(s[0].0 < x.0);
            assert(seq![x] + s =~= s.insert(0, x));
        }
    } else {
        assert(s[0].0 >= x.0);
        lemma_insert_desc_at(x, s.drop_first(), i - 1);
        assert(seq![s[0]] + s.drop_first().insert(i - 1, x) =~= s.insert(i, x));
    }
}

fn insert_pair_desc(out: &mut Vec<(i64, Post)>, x: (i64, Post))
    ensures
        final(out)@ == insert_desc(x, old(out)@),
{
    let mut i: usize = 0;
    while i < out.len() && out[i].0 >= x.0
        invariant
            i <= out.len(),
            *out == *old(out),
            forall|j: int| 0 <= j < i ==> out@[j].0 >= x.0,
        decreases out.len() - i,
    {
        i += 1;
    }
    proof {
        lemma_insert_desc_at(x, out@, i as int);
    }
    out.insert(i, x);
}

/// Sorts key/post pairs by descending key, stably: the executable
/// counterpart of [`sort_desc`].
pub fn sort_pairs_desc(v: &Vec<(i64, Post)>) -> (r: Vec<(i64, Post)>)
    ensures
        r@ == sort_desc(v@),
{
    let mut out: Vec<(i64, Post)> = Vec::new();
    let mut i: usize = 0;
    while i < v.len()
        invariant
            i <= v.len(),
            out@ == sort_desc(v@.subrange(0, i as int)),
        decreases v.len() - i,
    {
        let key = v[i].0;
        let p = v[i].1.duplicate();
        proof {
            assert(v@.subrange(0, i + 1).drop_last() =~= v@.subrange(0, i as int));
            assert(v@.subrange(0, i + 1).last() == v@[i as int]);
        }
        insert_pair_desc(&mut out, (key, p));
        i += 1;
    }
    proof {
        assert(v@.subrange(0, v@.len() as int) =~= v@);
    }
    out
}

} // verus!
