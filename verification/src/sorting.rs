//! Ordering a passed poll's actions: a verified insertion sort on the
//! explicit ordering key, emitting a permutation of the attached actions in
//! ascending key order.

use vstd::prelude::*;
use vstd::seq_lib::lemma_multiset_commutative;
use crate::types::{ExecuteData, ExecuteDataView};

verus! {

/// Model of a run of actions.
pub open spec fn views_of(s: Seq<ExecuteData>) -> Seq<ExecuteDataView> {
    s.map_values(|e: ExecuteData| e@)
}

/// The actions stand in ascending order of their ordering key.
pub open spec fn sorted_by_order(s: Seq<ExecuteData>) -> bool {
    forall|a: int, b: int| 0 <= a <= b < s.len() ==> s[a].order <= s[b].order
}

/// A prefix of the actions stands in ascending order of the ordering key.
pub open spec fn sorted_prefix(s: Seq<ExecuteData>, k: int) -> bool {
    forall|a: int, b: int| 0 <= a <= b < k ==> s[a].order <= s[b].order
}

/// Removing a position commutes with taking views.
proof fn lemma_views_remove(s: Seq<ExecuteData>, i: int)
    requires
        0 <= i < s.len(),
    ensures
        views_of(s.remove(i)) =~= views_of(s).remove(i),
{
    s.remove_ensures(i);
    views_of(s).remove_ensures(i);
}

/// Inserting at a position commutes with taking views.
proof fn lemma_views_insert(s: Seq<ExecuteData>, i: int, e: ExecuteData)
    requires
        0 <= i <= s.len(),
    ensures
        views_of(s.insert(i, e)) =~= views_of(s).insert(i, e@),
{
    s.insert_ensures(i, e);
    views_of(s).insert_ensures(i, e@);
}

/// Taking one element out and putting it back elsewhere keeps the multiset
/// of views.
proof fn lemma_remove_insert_multiset(s: Seq<ExecuteDataView>, i: int, p: int)
    requires
        0 <= i < s.len(),
        0 <= p <= s.len() - 1,
    ensures
        s.remove(i).insert(p, s[i]).to_multiset() =~= s.to_multiset(),
{
    s.to_multiset_ensures();
    let r = s.remove(i);
    let v = s[i];
    let a = r.subrange(0, p);
    let b = r.subrange(p, r.len() as int);
    assert(r =~= a + b);
    assert(r.insert(p, v) =~= a.push(v) + b);
    lemma_multiset_commutative(a, b);
    lemma_multiset_commutative(a.push(v), b);
    a.to_multiset_ensures();
    assert(r.to_multiset() =~= a.to_multiset().add(b.to_multiset()));
    assert(r.insert(p, v).to_multiset() =~= r.to_multiset().insert(v));
    assert(s.contains(v));
    assert(s.to_multiset().count(v) > 0);
    assert(r.to_multiset() =~= s.to_multiset().remove(v));
    assert(s.to_multiset().remove(v).insert(v) =~= s.to_multiset());
}

/// The actions carrying one ordering key, in their order of appearance.
pub open spec fn keyed(s: Seq<ExecuteDataView>, k: u64) -> Seq<ExecuteDataView> {
    s.filter(|e: ExecuteDataView| e.order == k)
}

/// Moving one element left across neighbours that all carry other keys
/// keeps, for every key, that key's run of actions: the move is stable.
proof fn lemma_filter_stable_move(s: Seq<ExecuteDataView>, i: int, p: int)
    requires
        0 <= p <= i < s.len(),
        forall|j: int| p <= j < i ==> s[j].order != s[i].order,
    ensures
        forall|k: u64| #[trigger] keyed(s.remove(i).insert(p, s[i]), k) == keyed(s, k),
{
    let e = s[i];
    let a = s.subrange(0, p);
    let b = s.subrange(p, i);
    let c = s.subrange(i + 1, s.len() as int);
    let s2 = s.remove(i).insert(p, e);
    assert(s =~= (a + b) + (seq![e] + c));
    assert(s.remove(i) =~= (a + b) + c);
    assert(s2 =~= (a + seq![e]) + (b + c));
    assert forall|k: u64| #[trigger] keyed(s2, k) == keyed(s, k) by {
        let f = |x: ExecuteDataView| x.order == k;
        Seq::filter_distributes_over_add(a + b, seq![e] + c, f);
        Seq::filter_distributes_over_add(a, b, f);
        Seq::filter_distributes_over_add(seq![e], c, f);
        Seq::filter_distributes_over_add(a + seq![e], b + c, f);
        Seq::filter_distributes_over_add(a, seq![e], f);
        Seq::filter_distributes_over_add(b, c, f);
        if k == e.order {
            assert(b.all(|x: ExecuteDataView| !f(x))) by {
                assert forall|j: int| 0 <= j < b.len() implies !f(b[j]) by {
                    assert(b[j] == s[p + j]);
                }
            }
            b.lemma_all_neg_filter_empty(f);
            assert(b.filter(f) =~= Seq::<ExecuteDataView>::empty());
        } else {
            assert(seq![e].all(|x: ExecuteDataView| !f(x))) by {
                assert(seq![e][0] == e);
            }
            seq![e].lemma_all_neg_filter_empty(f);
            assert(seq![e].filter(f) =~= Seq::<ExecuteDataView>::empty());
        }
        assert(keyed(s2, k) =~= keyed(s, k));
    }
}

/// An exact copy of one action's payload.
fn copy_bytes(src: &Vec<u8>) -> (r: Vec<u8>)
    ensures
        r@ == src@,
{
    let mut out: Vec<u8> = Vec::new();
    let mut k: usize = 0;
    while k < src.len()
        invariant
            k <= src@.len(),
            out@ =~= src@.subrange(0, k as int),
        decreases src@.len() - k,
    {
        out.push(src[k]);
        k += 1;
    }
    proof {
        assert(out@ =~= src@);
    }
    out
}

/// An exact copy of a run of actions.
pub(crate) fn copy_actions(src: &Vec<ExecuteData>) -> (r: Vec<ExecuteData>)
    ensures
        r@.len() == src@.len(),
        forall|i: int| 0 <= i < r@.len() ==> #[trigger] r@[i]@ == src@[i]@,
        views_of(r@) =~= views_of(src@),
{
    let mut out: Vec<ExecuteData> = Vec::new();
    let mut i: usize = 0;
    while i < src.len()
        invariant
            i <= src@.len(),
            out@.len() == i,
            forall|j: int| 0 <= j < i ==> #[trigger] out@[j]@ == src@[j]@,
        decreases src@.len() - i,
    {
        let msg = copy_bytes(&src[i].msg);
        out.push(ExecuteData { order: src[i].order, contract: src[i].contract, msg });
        i += 1;
    }
    out
}

/// Sorts the actions by their ordering key, ascending. The result is a
/// permutation of the input, and a stable one: actions sharing a key keep
/// their relative order.
pub fn sort_by_order(actions: Vec<ExecuteData>) -> (r: Vec<ExecuteData>)
    ensures
        r@.len() == actions@.len(),
        sorted_by_order(r@),
        views_of(r@).to_multiset() == views_of(actions@).to_multiset(),
        forall|k: u64| #[trigger] keyed(views_of(r@), k) == keyed(views_of(actions@), k),
{
    let mut items = actions;
    let ghost orig = views_of(items@).to_multiset();
    let mut i: usize = 1;
    while i < items.len()
        invariant
            1 <= i || items@.len() == 0,
            i <= items@.len() || items@.len() == 0,
            items@.len() == actions@.len(),
            sorted_prefix(items@, i as int),
            views_of(items@).to_multiset() == orig,
            forall|k: u64| #[trigger] keyed(views_of(items@), k) == keyed(views_of(actions@), k),
        decreases items@.len() - i,
    {
        let key_order = items[i].order;
        let mut p: usize = 0;
        while p < i && items[p].order <= key_order
            invariant
                p <= i,
                i < items@.len(),
                items@[i as int].order == key_order,
                forall|j: int| 0 <= j < p ==> items@[j].order <= key_order,
            decreases i - p,
        {
            p += 1;
        }
        if p < i {
            let ghost pre = items@;
            let e = items.remove(i);
            items.insert(p, e);
            proof {
                assert(items@ =~= pre.remove(i as int).insert(p as int, pre[i as int]));
                lemma_views_remove(pre, i as int);
                lemma_views_insert(pre.remove(i as int), p as int, pre[i as int]);
                assert(views_of(items@) =~= views_of(pre).remove(i as int).insert(
                    p as int,
                    views_of(pre)[i as int],
                ));
                lemma_remove_insert_multiset(views_of(pre), i as int, p as int);
                assert(views_of(items@).to_multiset() == orig);
                assert forall|j: int| p as int <= j < i as int implies views_of(pre)[j].order
                    != views_of(pre)[i as int].order by {
                    assert(pre[p as int].order <= pre[j].order);
                }
                lemma_filter_stable_move(views_of(pre), i as int, p as int);
                assert forall|k: u64| #[trigger] keyed(views_of(items@), k) == keyed(
                    views_of(actions@),
                    k,
                ) by {
                    assert(keyed(views_of(pre), k) == keyed(views_of(actions@), k));
                }
                pre.remove_ensures(i as int);
                pre.remove(i as int).insert_ensures(p as int, pre[i as int]);
                assert(sorted_prefix(items@, i as int + 1)) by {
                    assert forall|a: int, b: int| 0 <= a <= b < i as int + 1 implies items@[a].order
                        <= items@[b].order by {
                        assert(items@[p as int].order == key_order);
                        if a < p {
                            assert(items@[a] == pre[a]);
                        }
                        if p < a {
                            assert(items@[a] == pre[a - 1]);
                        }
                        if b < p {
                            assert(items@[b] == pre[b]);
                        }
                        if p < b {
                            assert(items@[b] == pre[b - 1]);
                        }
                        assert(pre[p as int].order > key_order);
                    }
                }
            }
        }
        i += 1;
    }
    proof {
        if items@.len() > 0 {
            assert(sorted_prefix(items@, items@.len() as int));
        }
    }
    items
}

} // verus!
