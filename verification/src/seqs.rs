//! Specification helpers for the stores: association sequences with unique
//! keys, vote-weight sums, and deposit sums, with the lemmas the lifecycle
//! transitions need.

use vstd::prelude::*;
use crate::types::{PollStatus, PollView, VoteOption, VoterInfo};

verus! {

/// True when some entry of the association sequence carries the key.
pub open spec fn has_key<V>(s: Seq<(u64, V)>, key: u64) -> bool {
    exists|i: int| 0 <= i < s.len() && (#[trigger] s[i]).0 == key
}

/// Index of the entry carrying the key; meaningful only when the key is
/// present.
pub open spec fn key_index<V>(s: Seq<(u64, V)>, key: u64) -> int {
    choose|i: int| 0 <= i < s.len() && (#[trigger] s[i]).0 == key
}

/// Value stored under the key; meaningful only when the key is present.
pub open spec fn lookup<V>(s: Seq<(u64, V)>, key: u64) -> V {
    s[key_index(s, key)].1
}

/// No two entries of the association sequence carry the same key.
pub open spec fn unique_keys<V>(s: Seq<(u64, V)>) -> bool {
    forall|i: int, j: int|
        0 <= i < j < s.len() ==> (#[trigger] s[i]).0 != (#[trigger] s[j]).0
}

/// With unique keys, the index found for a present key is the only one.
pub proof fn lemma_key_index<V>(s: Seq<(u64, V)>, key: u64)
    requires
        unique_keys(s),
        has_key(s, key),
    ensures
        0 <= key_index(s, key) < s.len(),
        s[key_index(s, key)].0 == key,
        forall|i: int| 0 <= i < s.len() && (#[trigger] s[i]).0 == key ==> i == key_index(s, key),
{
}

/// Appending an entry with a fresh key keeps the keys unique and leaves
/// every other lookup unchanged.
pub proof fn lemma_push_fresh_key<V>(s: Seq<(u64, V)>, key: u64, value: V)
    requires
        unique_keys(s),
        !has_key(s, key),
    ensures
        unique_keys(s.push((key, value))),
        has_key(s.push((key, value)), key),
        lookup(s.push((key, value)), key) == value,
        forall|k: u64| k != key ==> (has_key(s.push((key, value)), k) <==> has_key(s, k)),
        forall|k: u64|
            k != key && has_key(s, k) ==> lookup(#[trigger] s.push((key, value)), k) == lookup(
                s,
                k,
            ),
{
    let s2 = s.push((key, value));
    assert(s2[s.len() as int].0 == key);
    assert forall|k: u64| k != key && has_key(s, k) implies lookup(#[trigger] s.push((key, value)), k)
        == lookup(s, k) by {
        let i = key_index(s, k);
        assert(s2[i].0 == k);
        lemma_key_index(s2, k);
        lemma_key_index(s, k);
    }
    assert forall|k: u64| k != key && has_key(s2, k) implies has_key(s, k) by {
        let i = key_index(s2, k);
        assert(s2[i].0 == k);
        assert(i < s.len());
        assert(s[i].0 == k);
    }
    assert forall|k: u64| has_key(s, k) implies has_key(s2, k) by {
        let i = key_index(s, k);
        assert(s2[i].0 == k);
    }
}

/// Replacing the value stored under a key keeps the keys unique and leaves
/// every other lookup unchanged.
pub proof fn lemma_update_key<V>(s: Seq<(u64, V)>, key: u64, value: V)
    requires
        unique_keys(s),
        has_key(s, key),
    ensures
        unique_keys(s.update(key_index(s, key), (key, value))),
        has_key(s.update(key_index(s, key), (key, value)), key),
        lookup(s.update(key_index(s, key), (key, value)), key) == value,
        forall|k: u64|
            #[trigger] has_key(s.update(key_index(s, key), (key, value)), k) <==> has_key(s, k),
        forall|k: u64|
            k != key && has_key(s, k) ==> lookup(
                #[trigger] s.update(key_index(s, key), (key, value)),
                k,
            ) == lookup(s, k),
{
    lemma_key_index(s, key);
    let at = key_index(s, key);
    let s2 = s.update(at, (key, value));
    assert(s2[at].0 == key);
    lemma_key_index(s2, key);
    assert forall|k: u64| #[trigger] has_key(s2, k) implies has_key(s, k) by {
        let i = key_index(s2, k);
        if i == at {
            assert(s[at].0 == k);
        } else {
            assert(s[i].0 == k);
        }
    }
    assert forall|k: u64| has_key(s, k) implies has_key(s2, k) by {
        let i = key_index(s, k);
        if i == at {
            assert(s2[at].0 == k);
        } else {
            assert(s2[i].0 == k);
        }
    }
    assert forall|k: u64| k != key && has_key(s, k) implies lookup(#[trigger] s.update(at, (key, value)), k)
        == lookup(s, k) by {
        let i = key_index(s, k);
        lemma_key_index(s, k);
        assert(i != at);
        assert(s2[i].0 == k);
        lemma_key_index(s2, k);
    }
}

/// Weight an entry of a poll's voter map contributes to the given bucket.
pub open spec fn vote_weight(entry: (u64, VoterInfo), choice: VoteOption) -> int {
    if entry.1.vote == choice {
        entry.1.balance as int
    } else {
        0
    }
}

/// Total weight committed to the given bucket by a poll's voter map.
pub open spec fn sum_votes(s: Seq<(u64, VoterInfo)>, choice: VoteOption) -> int
    decreases s.len(),
{
    if s.len() == 0 {
        0
    } else {
        sum_votes(s.drop_last(), choice) + vote_weight(s.last(), choice)
    }
}

/// Appending a vote record adds exactly its weight to its bucket.
pub proof fn lemma_sum_votes_push(s: Seq<(u64, VoterInfo)>, entry: (u64, VoterInfo), choice: VoteOption)
    ensures
        sum_votes(s.push(entry), choice) == sum_votes(s, choice) + vote_weight(entry, choice),
{
    assert(s.push(entry).drop_last() =~= s);
}

/// Deposit a poll contributes to the running total: its deposit while it is
/// in progress, nothing once it is decided.
pub open spec fn deposit_contrib(p: PollView) -> int {
    if p.status is InProgress {
        p.deposit_amount as int
    } else {
        0
    }
}

/// Sum of the deposits of all polls still in progress.
pub open spec fn sum_deposits(polls: Seq<PollView>) -> int
    decreases polls.len(),
{
    if polls.len() == 0 {
        0
    } else {
        sum_deposits(polls.drop_last()) + deposit_contrib(polls.last())
    }
}

/// Appending a poll adds exactly its contribution.
pub proof fn lemma_sum_deposits_push(polls: Seq<PollView>, p: PollView)
    ensures
        sum_deposits(polls.push(p)) == sum_deposits(polls) + deposit_contrib(p),
{
    assert(polls.push(p).drop_last() =~= polls);
}

/// Replacing one poll shifts the sum by the difference of the two
/// contributions.
pub proof fn lemma_sum_deposits_update(polls: Seq<PollView>, i: int, p: PollView)
    requires
        0 <= i < polls.len(),
    ensures
        sum_deposits(polls.update(i, p)) == sum_deposits(polls) - deposit_contrib(polls[i])
            + deposit_contrib(p),
    decreases polls.len(),
{
    let upd = polls.update(i, p);
    if i == polls.len() - 1 {
        assert(upd.drop_last() =~= polls.drop_last());
        assert(upd.last() == p);
    } else {
        assert(upd.drop_last() =~= polls.drop_last().update(i, p));
        assert(upd.last() == polls.last());
        lemma_sum_deposits_update(polls.drop_last(), i, p);
    }
}

/// The sum is never negative.
pub proof fn lemma_sum_deposits_nonneg(polls: Seq<PollView>)
    ensures
        sum_deposits(polls) >= 0,
    decreases polls.len(),
{
    if polls.len() > 0 {
        lemma_sum_deposits_nonneg(polls.drop_last());
    }
}

/// The sum covers each single poll's contribution.
pub proof fn lemma_sum_deposits_ge_elem(polls: Seq<PollView>, i: int)
    requires
        0 <= i < polls.len(),
    ensures
        sum_deposits(polls) >= deposit_contrib(polls[i]),
    decreases polls.len(),
{
    if i == polls.len() - 1 {
        lemma_sum_deposits_nonneg(polls.drop_last());
    } else {
        lemma_sum_deposits_ge_elem(polls.drop_last(), i);
        assert(polls.drop_last()[i] == polls[i]);
    }
}

/// Removing one position from a duplicate-free sequence removes exactly that
/// element's membership and keeps the rest.
pub proof fn lemma_remove_unique(s: Seq<u64>, at: int)
    requires
        s.no_duplicates(),
        0 <= at < s.len(),
    ensures
        s.remove(at).no_duplicates(),
        !s.remove(at).contains(s[at]),
        forall|y: u64| y != s[at] ==> (#[trigger] s.remove(at).contains(y) <==> s.contains(y)),
{
    let r = s.remove(at);
    s.remove_ensures(at);
    assert forall|y: u64| #[trigger] r.contains(y) && y != s[at] implies s.contains(y) by {
        let j = choose|j: int| 0 <= j < r.len() && r[j] == y;
        if j < at {
            assert(s[j] == y);
        } else {
            assert(s[j + 1] == y);
        }
    }
    assert forall|y: u64| s.contains(y) && y != s[at] implies r.contains(y) by {
        let j = choose|j: int| 0 <= j < s.len() && s[j] == y;
        if j < at {
            assert(r[j] == y);
        } else {
            assert(j > at);
            assert(r[j - 1] == y);
        }
    }
    if r.contains(s[at]) {
        let j = choose|j: int| 0 <= j < r.len() && r[j] == s[at];
        if j < at {
            assert(s[j] == s[at]);
            assert(false);
        } else {
            assert(s[j + 1] == s[at]);
            assert(false);
        }
    }
}

/// Appending a fresh element to a duplicate-free sequence keeps it
/// duplicate-free and adds exactly that membership.
pub proof fn lemma_push_unique(s: Seq<u64>, x: u64)
    requires
        s.no_duplicates(),
        !s.contains(x),
    ensures
        s.push(x).no_duplicates(),
        s.push(x).contains(x),
        forall|y: u64| y != x ==> (#[trigger] s.push(x).contains(y) <==> s.contains(y)),
{
    let p = s.push(x);
    assert(p[s.len() as int] == x);
    assert forall|y: u64| #[trigger] p.contains(y) && y != x implies s.contains(y) by {
        let j = choose|j: int| 0 <= j < p.len() && p[j] == y;
        assert(s[j] == y);
    }
    assert forall|y: u64| s.contains(y) implies p.contains(y) by {
        let j = choose|j: int| 0 <= j < s.len() && s[j] == y;
        assert(p[j] == y);
    }
}

} // verus!
