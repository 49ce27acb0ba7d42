//! Proved laws of the lifecycle: every transition preserves the
//! well-formedness invariant, and the properties the module promises —
//! single votes, monotone tallies, frozen snapshots, timelocked execution —
//! hold of the transition functions for all states and inputs.

use vstd::prelude::*;
use crate::model::{
    create_args_ok, create_step, end_args_ok, end_step, execute_step, index_ok, register_step,
    set_share_step, tally, vote_args_ok, vote_step, GovView,
};
use crate::seqs::{
    deposit_contrib, has_key, lemma_push_fresh_key, lemma_push_unique, lemma_remove_unique,
    lemma_sum_deposits_ge_elem, lemma_sum_deposits_push, lemma_sum_deposits_update,
    lemma_sum_votes_push, lemma_update_key, lookup, sum_votes,
};
use crate::types::{
    EndPollResponse, ExecuteDataView, GovError, PollStatus, TokenManagerView, VoteOption,
    VoterInfo,
};

verus! {

/// Creating a poll preserves the invariant.
pub proof fn lemma_create_step_wf(
    g: GovView,
    height: u64,
    proposer: u64,
    deposit_amount: u128,
    title: Seq<char>,
    description: Seq<char>,
    link: Option<Seq<char>>,
    execute_msgs: Option<Seq<ExecuteDataView>>,
)
    requires
        g.wf(),
        create_args_ok(g, height, deposit_amount),
    ensures
        create_step(g, height, proposer, deposit_amount, title, description, link, execute_msgs).0.wf(),
{
    if deposit_amount >= g.config.proposal_deposit {
        let (g2, _) = create_step(
            g,
            height,
            proposer,
            deposit_amount,
            title,
            description,
            link,
            execute_msgs,
        );
        let id = (g.state.poll_count + 1) as u64;
        let p = g2.polls.last();
        assert(sum_votes(Seq::<(u64, crate::types::VoterInfo)>::empty(), VoteOption::Yes) == 0);
        assert(sum_votes(Seq::<(u64, crate::types::VoterInfo)>::empty(), VoteOption::No) == 0);
        lemma_sum_deposits_push(g.polls, p);
        assert(!g.in_progress.contains(id));
        lemma_push_unique(g.in_progress, id);
        assert forall|i: int|
            0 <= i < g2.polls.len() && (#[trigger] g2.polls[i]).status == PollStatus::InProgress
            implies g2.in_progress.contains((i + 1) as u64) by {
            if i < g.polls.len() {
                assert(g.polls[i].status == PollStatus::InProgress);
                assert(g.in_progress.contains((i + 1) as u64));
            } else {
                assert(g2.in_progress.last() == id);
                assert(g2.in_progress.contains(id));
            }
        }
        assert(index_ok(g2.in_progress, g2.polls, PollStatus::InProgress));
        assert(index_ok(g2.rejected, g2.polls, PollStatus::Rejected));
        assert(index_ok(g2.passed, g2.polls, PollStatus::Passed));
        assert(index_ok(g2.executed, g2.polls, PollStatus::Executed));
    }
}

/// Casting a vote preserves the invariant.
pub proof fn lemma_vote_step_wf(
    g: GovView,
    height: u64,
    contract_balance: u128,
    voter: u64,
    poll_id: u64,
    choice: VoteOption,
    amount: u128,
)
    requires
        g.wf(),
        vote_args_ok(g, height, contract_balance, voter, poll_id, amount),
    ensures
        vote_step(g, height, contract_balance, voter, poll_id, choice, amount).0.wf(),
{
    let (g2, r) = vote_step(g, height, contract_balance, voter, poll_id, choice, amount);
    if r is Ok {
        let at = poll_id - 1;
        let p = g.poll_of(poll_id);
        let p2 = g2.polls[at];
        let info = VoterInfo { vote: choice, balance: amount };
        lemma_sum_votes_push(g.voters[at], (voter, info), VoteOption::Yes);
        lemma_sum_votes_push(g.voters[at], (voter, info), VoteOption::No);
        lemma_push_fresh_key(g.voters[at], voter, info);
        lemma_sum_deposits_update(g.polls, at, p2);
        if has_key(g.bank, voter) {
            let tm = lookup(g.bank, voter);
            lemma_update_key(
                g.bank,
                voter,
                TokenManagerView { locked_balance: tm.locked_balance.push((poll_id, info)), ..tm },
            );
        } else {
            lemma_push_fresh_key(
                g.bank,
                voter,
                TokenManagerView {
                    share: 0,
                    locked_balance: Seq::empty().push((poll_id, info)),
                },
            );
        }
        assert(index_ok(g2.in_progress, g2.polls, PollStatus::InProgress)) by {
            assert forall|i: int|
                0 <= i < g2.polls.len() && (#[trigger] g2.polls[i]).status == PollStatus::InProgress
                implies g2.in_progress.contains((i + 1) as u64) by {
                assert(g.polls[i].status == PollStatus::InProgress);
            }
        }
        assert(index_ok(g2.rejected, g2.polls, PollStatus::Rejected)) by {
            assert forall|i: int|
                0 <= i < g2.polls.len() && (#[trigger] g2.polls[i]).status == PollStatus::Rejected
                implies g2.rejected.contains((i + 1) as u64) by {
                assert(g.polls[i].status == PollStatus::Rejected);
            }
        }
        assert(index_ok(g2.passed, g2.polls, PollStatus::Passed)) by {
            assert forall|i: int|
                0 <= i < g2.polls.len() && (#[trigger] g2.polls[i]).status == PollStatus::Passed
                implies g2.passed.contains((i + 1) as u64) by {
                assert(g.polls[i].status == PollStatus::Passed);
            }
        }
        assert(index_ok(g2.executed, g2.polls, PollStatus::Executed)) by {
            assert forall|i: int|
                0 <= i < g2.polls.len() && (#[trigger] g2.polls[i]).status == PollStatus::Executed
                implies g2.executed.contains((i + 1) as u64) by {
                assert(g.polls[i].status == PollStatus::Executed);
            }
        }
    }
}

/// When a poll is in progress, the running deposit total covers its deposit,
/// so relieving the total cannot go below zero.
pub proof fn lemma_deposit_covered(g: GovView, poll_id: u64)
    requires
        g.wf(),
        g.poll_exists(poll_id),
        g.poll_of(poll_id).status is InProgress,
    ensures
        g.state.total_deposit >= g.poll_of(poll_id).deposit_amount,
{
    lemma_sum_deposits_ge_elem(g.polls, poll_id - 1);
    assert(deposit_contrib(g.poll_of(poll_id)) == g.poll_of(poll_id).deposit_amount);
}

/// Moving one poll's identifier from the bucket of its old status to the
/// bucket of its new status keeps all four buckets exact.
proof fn lemma_index_move(g: GovView, g2: GovView, poll_id: u64, to: PollStatus)
    requires
        g.wf(),
        g.poll_exists(poll_id),
        to != g.poll_of(poll_id).status,
        g2.polls =~= g.polls.update(poll_id - 1, g2.polls[poll_id - 1]),
        g2.polls[poll_id - 1].status == to,
        g.poll_of(poll_id).status is InProgress ==> {
            &&& g2.in_progress =~= g.in_progress.remove_value(poll_id)
            &&& g2.rejected == (if to is Rejected { g.rejected.push(poll_id) } else { g.rejected })
            &&& g2.passed == (if to is Passed { g.passed.push(poll_id) } else { g.passed })
            &&& g2.executed == g.executed
            &&& (to is Rejected || to is Passed)
        },
        g.poll_of(poll_id).status is Passed ==> {
            &&& g2.passed =~= g.passed.remove_value(poll_id)
            &&& g2.in_progress == g.in_progress
            &&& g2.rejected == g.rejected
            &&& g2.executed == g.executed.push(poll_id)
            &&& to is Executed
        },
        g.poll_of(poll_id).status is InProgress || g.poll_of(poll_id).status is Passed,
    ensures
        index_ok(g2.in_progress, g2.polls, PollStatus::InProgress),
        index_ok(g2.rejected, g2.polls, PollStatus::Rejected),
        index_ok(g2.passed, g2.polls, PollStatus::Passed),
        index_ok(g2.executed, g2.polls, PollStatus::Executed),
{
    let from = g.poll_of(poll_id).status;
    let src = if from is InProgress {
        g.in_progress
    } else {
        g.passed
    };
    let dst = if to is Rejected {
        g.rejected
    } else if to is Passed {
        g.passed
    } else {
        g.executed
    };
    // The source bucket held the identifier; removing its first occurrence
    // removes exactly it.
    assert(src.contains(poll_id));
    src.index_of_first_ensures(poll_id);
    let at = src.index_of_first(poll_id)->0;
    assert(src.remove_value(poll_id) == src.remove(at));
    lemma_remove_unique(src, at);
    // The target bucket did not hold it yet.
    assert(!dst.contains(poll_id));
    lemma_push_unique(dst, poll_id);
    assert forall|s: PollStatus| true implies index_ok(bucket_of(g2, s), g2.polls, s) by {
        let idx2 = bucket_of(g2, s);
        let idx = bucket_of(g, s);
        assert forall|j: int| 0 <= j < idx2.len() implies 1 <= #[trigger] idx2[j] <= g2.polls.len()
            && g2.polls[idx2[j] - 1].status == s by {
            if s == to {
                if j == idx2.len() - 1 {
                    assert(idx2[j] == poll_id);
                } else {
                    assert(idx2[j] == idx[j]);
                    assert(idx2.contains(idx2[j]));
                    assert(idx2[j] != poll_id);
                }
            } else {
                assert(idx2.contains(idx2[j]));
                assert(idx.contains(idx2[j]));
                let k = choose|k: int| 0 <= k < idx.len() && idx[k] == idx2[j];
                assert(idx[k] <= g.polls.len());
                if s == from {
                    assert(idx2[j] != poll_id);
                } else {
                    assert(g.polls[idx2[j] - 1].status == s);
                    assert(idx2[j] != poll_id);
                }
            }
        }
        assert forall|i: int|
            0 <= i < g2.polls.len() && (#[trigger] g2.polls[i]).status == s implies idx2.contains(
            (i + 1) as u64,
        ) by {
            if i == poll_id - 1 {
                assert(s == to);
                assert(idx2.last() == poll_id);
            } else {
                assert(g.polls[i].status == s);
                assert(idx.contains((i + 1) as u64));
            }
        }
    }
}

/// The bucket of the secondary index that serves a status.
pub open spec fn bucket_of(g: GovView, status: PollStatus) -> Seq<u64> {
    match status {
        PollStatus::InProgress => g.in_progress,
        PollStatus::Rejected => g.rejected,
        PollStatus::Passed => g.passed,
        PollStatus::Executed => g.executed,
    }
}

/// Ending a poll preserves the invariant.
pub proof fn lemma_end_step_wf(g: GovView, height: u64, contract_balance: u128, poll_id: u64)
    requires
        g.wf(),
        end_args_ok(g, height, contract_balance, poll_id),
    ensures
        end_step(g, height, contract_balance, poll_id).0.wf(),
{
    let (g2, r) = end_step(g, height, contract_balance, poll_id);
    if r is Ok {
        let at = poll_id - 1;
        let p = g.poll_of(poll_id);
        let p2 = g2.polls[at];
        lemma_deposit_covered(g, poll_id);
        lemma_sum_deposits_update(g.polls, at, p2);
        lemma_index_move(g, g2, poll_id, p2.status);
    }
}

/// Executing a poll preserves the invariant.
pub proof fn lemma_execute_step_wf(g: GovView, height: u64, poll_id: u64)
    requires
        g.wf(),
    ensures
        execute_step(g, height, poll_id).0.wf(),
{
    let (g2, r) = execute_step(g, height, poll_id);
    if r is Ok {
        let at = poll_id - 1;
        let p2 = g2.polls[at];
        lemma_sum_deposits_update(g.polls, at, p2);
        lemma_index_move(g, g2, poll_id, PollStatus::Executed);
    }
}

/// Recording a share balance preserves the invariant.
pub proof fn lemma_set_share_step_wf(g: GovView, account: u64, share: u128)
    requires
        g.wf(),
    ensures
        set_share_step(g, account, share).wf(),
{
    if has_key(g.bank, account) {
        let tm = lookup(g.bank, account);
        lemma_update_key(g.bank, account, TokenManagerView { share, ..tm });
    } else {
        lemma_push_fresh_key(
            g.bank,
            account,
            TokenManagerView { share, locked_balance: Seq::empty() },
        );
    }
}

/// Registering the token preserves the invariant.
pub proof fn lemma_register_step_wf(g: GovView, token: u64)
    requires
        g.wf(),
    ensures
        register_step(g, token).0.wf(),
{
}

/// In every reachable state, a poll's tally accumulators equal the sums of
/// the committed weights of the accepted votes in its voter map, bucket by
/// bucket.
pub proof fn lemma_tally_is_vote_sum(g: GovView, poll_id: u64)
    requires
        g.wf(),
        g.poll_exists(poll_id),
    ensures
        g.poll_of(poll_id).yes_votes == sum_votes(g.voters_of(poll_id), VoteOption::Yes),
        g.poll_of(poll_id).no_votes == sum_votes(g.voters_of(poll_id), VoteOption::No),
{
}

/// A vote never shrinks any poll's tally: the voted poll's tally grows by
/// the accepted weight, every other poll's tally is unchanged.
pub proof fn lemma_vote_tally_monotone(
    g: GovView,
    height: u64,
    contract_balance: u128,
    voter: u64,
    poll_id: u64,
    choice: VoteOption,
    amount: u128,
    watched: u64,
)
    requires
        g.wf(),
        g.poll_exists(watched),
        vote_args_ok(g, height, contract_balance, voter, poll_id, amount),
    ensures
        ({
            let g2 = vote_step(g, height, contract_balance, voter, poll_id, choice, amount).0;
            &&& tally(g2.poll_of(watched)) >= tally(g.poll_of(watched))
            &&& (vote_step(g, height, contract_balance, voter, poll_id, choice, amount).1 is Ok
                && watched == poll_id ==> tally(g2.poll_of(watched)) == tally(g.poll_of(watched))
                + amount)
        }),
{
    let (g2, r) = vote_step(g, height, contract_balance, voter, poll_id, choice, amount);
    if r is Ok && watched == poll_id {
        let p = g.poll_of(poll_id);
        let p2 = g2.poll_of(poll_id);
        if choice is Yes {
            assert(p2.yes_votes == p.yes_votes + amount && p2.no_votes == p.no_votes);
        } else {
            assert(p2.no_votes == p.no_votes + amount && p2.yes_votes == p.yes_votes);
        }
    }
}

/// Ending or executing a poll never changes any poll's tally.
pub proof fn lemma_decide_preserves_tallies(
    g: GovView,
    height: u64,
    contract_balance: u128,
    poll_id: u64,
    watched: u64,
)
    requires
        g.wf(),
        g.poll_exists(watched),
    ensures
        tally(end_step(g, height, contract_balance, poll_id).0.poll_of(watched)) == tally(
            g.poll_of(watched),
        ),
        tally(execute_step(g, height, poll_id).0.poll_of(watched)) == tally(g.poll_of(watched)),
{
}

/// A (poll, voter) pair holds at most one vote record: once the poll has
/// heard from the voter, any further vote by the same voter on the same
/// poll changes nothing and is refused — with AlreadyVoted whenever the
/// poll is still open, whatever the choice or the weight.
pub proof fn lemma_second_vote_rejected(
    g: GovView,
    height: u64,
    contract_balance: u128,
    voter: u64,
    poll_id: u64,
    choice: VoteOption,
    amount: u128,
)
    requires
        g.wf(),
        g.poll_exists(poll_id),
        g.has_voted(poll_id, voter),
    ensures
        vote_step(g, height, contract_balance, voter, poll_id, choice, amount).0 == g,
        vote_step(g, height, contract_balance, voter, poll_id, choice, amount).1 is Err,
        g.poll_of(poll_id).status is InProgress && height <= g.poll_of(poll_id).end_height
            ==> vote_step(g, height, contract_balance, voter, poll_id, choice, amount).1 == Err::<
            (),
            GovError,
        >(GovError::AlreadyVoted),
{
}

/// A vote that is accepted leaves a record: the poll has then heard from
/// the voter, so the previous law applies to every later vote.
pub proof fn lemma_vote_leaves_record(
    g: GovView,
    height: u64,
    contract_balance: u128,
    voter: u64,
    poll_id: u64,
    choice: VoteOption,
    amount: u128,
)
    requires
        g.wf(),
        vote_step(g, height, contract_balance, voter, poll_id, choice, amount).1 is Ok,
    ensures
        vote_step(g, height, contract_balance, voter, poll_id, choice, amount).0.has_voted(
            poll_id,
            voter,
        ),
{
    let s = g.voters_of(poll_id);
    let info = VoterInfo { vote: choice, balance: amount };
    assert(s.push((voter, info))[s.len() as int].0 == voter);
}

/// Ending a poll before its end height changes nothing and is refused with
/// PollVotingPeriod.
pub proof fn lemma_end_too_early(g: GovView, height: u64, contract_balance: u128, poll_id: u64)
    requires
        g.wf(),
        g.poll_exists(poll_id),
        g.poll_of(poll_id).status is InProgress,
        height < g.poll_of(poll_id).end_height,
    ensures
        end_step(g, height, contract_balance, poll_id).0 == g,
        end_step(g, height, contract_balance, poll_id).1 == Err::<EndPollResponse, GovError>(
            GovError::PollVotingPeriod,
        ),
{
}

/// Ending a poll that is no longer in progress changes nothing and is
/// refused with PollNotInProgress.
pub proof fn lemma_end_not_in_progress(
    g: GovView,
    height: u64,
    contract_balance: u128,
    poll_id: u64,
)
    requires
        g.wf(),
        g.poll_exists(poll_id),
        !(g.poll_of(poll_id).status is InProgress),
    ensures
        end_step(g, height, contract_balance, poll_id).0 == g,
        end_step(g, height, contract_balance, poll_id).1 == Err::<EndPollResponse, GovError>(
            GovError::PollNotInProgress,
        ),
{
}

/// Ending the same poll twice fails: after a successful end the poll is no
/// longer in progress, so the second end changes nothing and is refused
/// with PollNotInProgress, at any height and any balance.
pub proof fn lemma_end_twice_rejected(
    g: GovView,
    height1: u64,
    balance1: u128,
    height2: u64,
    balance2: u128,
    poll_id: u64,
)
    requires
        g.wf(),
        end_step(g, height1, balance1, poll_id).1 is Ok,
    ensures
        ({
            let g2 = end_step(g, height1, balance1, poll_id).0;
            &&& end_step(g2, height2, balance2, poll_id).0 == g2
            &&& end_step(g2, height2, balance2, poll_id).1 == Err::<EndPollResponse, GovError>(
                GovError::PollNotInProgress,
            )
        }),
{
}

/// Executing a passed poll before its timelock has elapsed changes nothing
/// and is refused with TimelockNotExpired.
pub proof fn lemma_execute_timelock(g: GovView, height: u64, poll_id: u64)
    requires
        g.wf(),
        g.poll_exists(poll_id),
        g.poll_of(poll_id).status is Passed,
        height < g.poll_of(poll_id).end_height + g.config.timelock_period,
    ensures
        execute_step(g, height, poll_id).0 == g,
        execute_step(g, height, poll_id).1 == Err::<(), GovError>(GovError::TimelockNotExpired),
{
}

/// At or after the end of the timelock, executing a passed poll that
/// carries an action list succeeds and moves it to Executed.
pub proof fn lemma_execute_after_timelock(g: GovView, height: u64, poll_id: u64)
    requires
        g.wf(),
        g.poll_exists(poll_id),
        g.poll_of(poll_id).status is Passed,
        height >= g.poll_of(poll_id).end_height + g.config.timelock_period,
        g.poll_of(poll_id).execute_data is Some,
    ensures
        execute_step(g, height, poll_id).1 is Ok,
        execute_step(g, height, poll_id).0.poll_of(poll_id).status is Executed,
{
}

/// Executing the same poll twice fails: after a successful execution the
/// poll is no longer passed, so the second attempt changes nothing and is
/// refused with PollNotPassed, at any height.
pub proof fn lemma_execute_twice_rejected(g: GovView, height1: u64, height2: u64, poll_id: u64)
    requires
        g.wf(),
        execute_step(g, height1, poll_id).1 is Ok,
    ensures
        ({
            let g2 = execute_step(g, height1, poll_id).0;
            &&& execute_step(g2, height2, poll_id).0 == g2
            &&& execute_step(g2, height2, poll_id).1 == Err::<(), GovError>(GovError::PollNotPassed)
        }),
{
}

/// A poll's status only moves forward. Creating and voting never change a
/// stored poll's status; ending moves only a poll in progress, to Passed or
/// Rejected; executing moves only a passed poll, to Executed.
pub proof fn lemma_status_forward(
    g: GovView,
    height: u64,
    contract_balance: u128,
    voter: u64,
    poll_id: u64,
    choice: VoteOption,
    amount: u128,
    watched: u64,
)
    requires
        g.wf(),
        g.poll_exists(watched),
    ensures
        vote_step(g, height, contract_balance, voter, poll_id, choice, amount).0.poll_of(
            watched,
        ).status == g.poll_of(watched).status,
        ({
            let after = end_step(g, height, contract_balance, poll_id).0.poll_of(watched).status;
            after == g.poll_of(watched).status || (g.poll_of(watched).status is InProgress && (
            after is Passed || after is Rejected))
        }),
        ({
            let after = execute_step(g, height, poll_id).0.poll_of(watched).status;
            after == g.poll_of(watched).status || (g.poll_of(watched).status is Passed
                && after is Executed)
        }),
{
}

/// Once a poll's staked reference weight is frozen, no later vote moves it,
/// whatever the live balance reads: the snapshot is written at most once.
pub proof fn lemma_snapshot_frozen(
    g: GovView,
    height: u64,
    contract_balance: u128,
    voter: u64,
    poll_id: u64,
    choice: VoteOption,
    amount: u128,
    watched: u64,
)
    requires
        g.wf(),
        g.poll_exists(watched),
        g.poll_of(watched).staked_amount is Some,
    ensures
        vote_step(g, height, contract_balance, voter, poll_id, choice, amount).0.poll_of(
            watched,
        ).staked_amount == g.poll_of(watched).staked_amount,
{
}

} // verus!
