//! Mathematical model of the governance module: the abstract state, its
//! well-formedness invariant, and one transition function per lifecycle
//! operation. The executable methods promise to land exactly on these
//! transitions.

use vstd::prelude::*;
use crate::ratio::FRACTIONAL;
use crate::seqs::{has_key, key_index, lookup, sum_deposits, sum_votes, unique_keys};
use crate::types::{
    Config, CreatePollResponse, EndPollResponse, ExecuteDataView, GovError, PollStatus, PollView,
    RefundMsg, RejectReason, State, TokenManagerView, VoteOption, VoterInfo,
};

verus! {

/// Abstract state of the whole module: configuration, global counters, the
/// poll store, the per-poll voter maps, the per-account ledger, and the four
/// status buckets of the secondary index.
#[verifier::ext_equal]
pub struct GovView {
    pub config: Config,
    pub state: State,
    pub polls: Seq<PollView>,
    pub voters: Seq<Seq<(u64, VoterInfo)>>,
    pub bank: Seq<(u64, TokenManagerView)>,
    pub in_progress: Seq<u64>,
    pub rejected: Seq<u64>,
    pub passed: Seq<u64>,
    pub executed: Seq<u64>,
}

/// A status bucket holds exactly the identifiers of the polls whose current
/// status matches it, each once.
pub open spec fn index_ok(idx: Seq<u64>, polls: Seq<PollView>, status: PollStatus) -> bool {
    &&& idx.no_duplicates()
    &&& forall|j: int|
        0 <= j < idx.len() ==> 1 <= #[trigger] idx[j] <= polls.len() && polls[idx[j] - 1].status
            == status
    &&& forall|i: int|
        0 <= i < polls.len() && (#[trigger] polls[i]).status == status ==> idx.contains(
            (i + 1) as u64,
        )
}

impl GovView {
    /// The invariant every reachable state satisfies: counters agree with the
    /// stores, identifiers are dense and one-based, voter maps and the ledger
    /// are keyed uniquely, each tally accumulator equals the sum of the
    /// committed weights of its bucket, the running deposit total equals the
    /// deposits of the polls still in progress, the status index partitions
    /// the polls, and the configured ratios lie between zero and one.
    pub open spec fn wf(self) -> bool {
        &&& self.state.poll_count == self.polls.len()
        &&& self.voters.len() == self.polls.len()
        &&& forall|i: int| 0 <= i < self.polls.len() ==> (#[trigger] self.polls[i]).id == i + 1
        &&& forall|i: int| 0 <= i < self.voters.len() ==> unique_keys(#[trigger] self.voters[i])
        &&& unique_keys(self.bank)
        &&& forall|i: int|
            0 <= i < self.polls.len() ==> (#[trigger] self.polls[i]).yes_votes == sum_votes(
                self.voters[i],
                VoteOption::Yes,
            )
        &&& forall|i: int|
            0 <= i < self.polls.len() ==> (#[trigger] self.polls[i]).no_votes == sum_votes(
                self.voters[i],
                VoteOption::No,
            )
        &&& forall|i: int|
            0 <= i < self.polls.len() ==> (#[trigger] self.polls[i]).yes_votes + self.polls[i].no_votes
                <= u128::MAX
        &&& self.state.total_deposit == sum_deposits(self.polls)
        &&& index_ok(self.in_progress, self.polls, PollStatus::InProgress)
        &&& index_ok(self.rejected, self.polls, PollStatus::Rejected)
        &&& index_ok(self.passed, self.polls, PollStatus::Passed)
        &&& index_ok(self.executed, self.polls, PollStatus::Executed)
        &&& self.config.quorum.atomics <= FRACTIONAL
        &&& self.config.threshold.atomics <= FRACTIONAL
    }

    /// The poll identifier denotes a stored poll.
    pub open spec fn poll_exists(self, poll_id: u64) -> bool {
        1 <= poll_id <= self.polls.len()
    }

    /// The stored poll under the identifier.
    pub open spec fn poll_of(self, poll_id: u64) -> PollView {
        self.polls[poll_id - 1]
    }

    /// The voter map of the poll under the identifier.
    pub open spec fn voters_of(self, poll_id: u64) -> Seq<(u64, VoterInfo)> {
        self.voters[poll_id - 1]
    }

    /// The account's convertible share balance; zero when the ledger has no
    /// record for it.
    pub open spec fn share_of(self, account: u64) -> u128 {
        if has_key(self.bank, account) {
            lookup(self.bank, account).share
        } else {
            0
        }
    }

    /// The account already holds a vote record for the poll.
    pub open spec fn has_voted(self, poll_id: u64, voter: u64) -> bool {
        has_key(self.voters_of(poll_id), voter)
    }
}

/// Sum of both tally accumulators.
pub open spec fn tally(p: PollView) -> int {
    p.yes_votes + p.no_votes
}

/// Creating a poll: refused when the deposit is below the configured
/// minimum; otherwise the next identifier is allocated, the poll is stored
/// in progress with its voting window, and the counters grow.
pub open spec fn create_step(
    g: GovView,
    height: u64,
    proposer: u64,
    deposit_amount: u128,
    title: Seq<char>,
    description: Seq<char>,
    link: Option<Seq<char>>,
    execute_msgs: Option<Seq<ExecuteDataView>>,
) -> (GovView, Result<CreatePollResponse, GovError>) {
    if deposit_amount < g.config.proposal_deposit {
        (g, Err(GovError::InsufficientProposalDeposit(g.config.proposal_deposit)))
    } else {
        let id = (g.state.poll_count + 1) as u64;
        let end_height = (height + g.config.voting_period) as u64;
        let p = PollView {
            id,
            creator: proposer,
            status: PollStatus::InProgress,
            yes_votes: 0,
            no_votes: 0,
            end_height,
            title,
            description,
            link,
            execute_data: execute_msgs,
            deposit_amount,
            total_balance_at_end_poll: None,
            staked_amount: None,
        };
        let g2 = GovView {
            state: State {
                poll_count: id,
                total_deposit: (g.state.total_deposit + deposit_amount) as u128,
                ..g.state
            },
            polls: g.polls.push(p),
            voters: g.voters.push(Seq::empty()),
            in_progress: g.in_progress.push(id),
            ..g
        };
        (g2, Ok(CreatePollResponse { poll_id: id, end_height }))
    }
}

/// What the machine's word sizes force on creating a poll: on the accepted
/// path the counters and the poll's end height must not wrap.
pub open spec fn create_args_ok(g: GovView, height: u64, deposit_amount: u128) -> bool {
    deposit_amount >= g.config.proposal_deposit ==> {
        &&& g.state.poll_count + 1 <= u64::MAX
        &&& height + g.config.voting_period <= u64::MAX
        &&& g.state.total_deposit + deposit_amount <= u128::MAX
    }
}

/// Casting a vote: the poll must exist, be in progress with its window open,
/// not have heard from this voter, and the voter's convertible balance —
/// share times the pooled balance net of deposits over the total shares —
/// must cover the committed weight. The weight lands in the chosen bucket,
/// the vote record is stored, the weight is journalled in the ledger, and
/// inside the snapshot window the net balance is frozen at first touch.
pub open spec fn vote_step(
    g: GovView,
    height: u64,
    contract_balance: u128,
    voter: u64,
    poll_id: u64,
    choice: VoteOption,
    amount: u128,
) -> (GovView, Result<(), GovError>) {
    if poll_id == 0 || g.state.poll_count < poll_id {
        (g, Err(GovError::PollNotFound))
    } else {
        let p = g.poll_of(poll_id);
        if !(p.status is InProgress) || height > p.end_height {
            (g, Err(GovError::PollNotInProgress))
        } else if g.has_voted(poll_id, voter) {
            (g, Err(GovError::AlreadyVoted))
        } else if contract_balance < g.state.total_deposit {
            (g, Err(GovError::Underflow))
        } else {
            let total_balance = (contract_balance - g.state.total_deposit) as u128;
            let convertible = (g.share_of(voter) as int) * total_balance / (
            g.state.total_share as int);
            if convertible < amount {
                (g, Err(GovError::InsufficientStaked))
            } else {
                let info = VoterInfo { vote: choice, balance: amount };
                let p2 = PollView {
                    yes_votes: if choice is Yes {
                        (p.yes_votes + amount) as u128
                    } else {
                        p.yes_votes
                    },
                    no_votes: if choice is No {
                        (p.no_votes + amount) as u128
                    } else {
                        p.no_votes
                    },
                    staked_amount: if p.end_height - height < g.config.snapshot_period
                        && p.staked_amount is None {
                        Some(total_balance)
                    } else {
                        p.staked_amount
                    },
                    ..p
                };
                let tm = if has_key(g.bank, voter) {
                    lookup(g.bank, voter)
                } else {
                    TokenManagerView { share: 0, locked_balance: Seq::empty() }
                };
                let tm2 = TokenManagerView {
                    locked_balance: tm.locked_balance.push((poll_id, info)),
                    ..tm
                };
                let bank2 = if has_key(g.bank, voter) {
                    g.bank.update(key_index(g.bank, voter), (voter, tm2))
                } else {
                    g.bank.push((voter, tm2))
                };
                let g2 = GovView {
                    polls: g.polls.update(poll_id - 1, p2),
                    voters: g.voters.update(poll_id - 1, g.voters_of(poll_id).push((voter, info))),
                    bank: bank2,
                    ..g
                };
                (g2, Ok(()))
            }
        }
    }
}

/// What the machine's word sizes and the pooled division force on casting a
/// vote: once the checks would let the conversion run, the total share must
/// not be zero and neither the conversion nor the accepted bucket may wrap.
pub open spec fn vote_args_ok(
    g: GovView,
    height: u64,
    contract_balance: u128,
    voter: u64,
    poll_id: u64,
    amount: u128,
) -> bool {
    (g.poll_exists(poll_id) && g.poll_of(poll_id).status is InProgress && height <= g.poll_of(
        poll_id,
    ).end_height && !g.has_voted(poll_id, voter) && contract_balance >= g.state.total_deposit)
        ==> {
        let total_balance = contract_balance - g.state.total_deposit;
        let convertible = (g.share_of(voter) as int) * total_balance / (g.state.total_share as int);
        &&& g.state.total_share != 0
        &&& convertible <= u128::MAX
        &&& (convertible >= amount ==> tally(g.poll_of(poll_id)) + amount <= u128::MAX)
    }
}

/// Ending a poll: the poll must exist, be in progress, and its window must
/// have closed. The tally is held against the quorum — over the frozen
/// snapshot when one exists, else over the live net balance; the quorum is
/// zero when no shares are issued or the reference weight is zero — then
/// against the threshold. The poll is moved to Passed or Rejected, the
/// reference weight is recorded, the running deposit total is relieved, and
/// the deposit is refunded exactly when quorum was reached and it is not
/// zero.
pub open spec fn end_step(g: GovView, height: u64, contract_balance: u128, poll_id: u64) -> (
    GovView,
    Result<EndPollResponse, GovError>,
) {
    if poll_id == 0 || g.state.poll_count < poll_id {
        (g, Err(GovError::PollNotFound))
    } else {
        let p = g.poll_of(poll_id);
        if !(p.status is InProgress) {
            (g, Err(GovError::PollNotInProgress))
        } else if p.end_height > height {
            (g, Err(GovError::PollVotingPeriod))
        } else if g.state.total_share != 0 && p.staked_amount is None && contract_balance
            < g.state.total_deposit {
            (g, Err(GovError::Underflow))
        } else {
            let staked_weight: u128 = if g.state.total_share == 0 {
                0
            } else if p.staked_amount is Some {
                p.staked_amount->0
            } else {
                (contract_balance - g.state.total_deposit) as u128
            };
            let quorum_atomics: int = if staked_weight == 0 {
                0
            } else {
                tally(p) * FRACTIONAL / (staked_weight as int)
            };
            let quorum_reached = !(tally(p) == 0 || quorum_atomics < g.config.quorum.atomics);
            let passed = quorum_reached && p.yes_votes * FRACTIONAL / tally(p)
                > g.config.threshold.atomics;
            let reason = if !quorum_reached {
                Some(RejectReason::QuorumNotReached)
            } else if passed {
                None
            } else {
                Some(RejectReason::ThresholdNotReached)
            };
            let refund = if quorum_reached && p.deposit_amount != 0 {
                Some(RefundMsg { recipient: p.creator, amount: p.deposit_amount })
            } else {
                None
            };
            let p2 = PollView {
                status: if passed {
                    PollStatus::Passed
                } else {
                    PollStatus::Rejected
                },
                total_balance_at_end_poll: Some(staked_weight),
                ..p
            };
            let g2 = GovView {
                state: State {
                    total_deposit: (g.state.total_deposit - p.deposit_amount) as u128,
                    ..g.state
                },
                polls: g.polls.update(poll_id - 1, p2),
                in_progress: g.in_progress.remove_value(poll_id),
                rejected: if passed {
                    g.rejected
                } else {
                    g.rejected.push(poll_id)
                },
                passed: if passed {
                    g.passed.push(poll_id)
                } else {
                    g.passed
                },
                ..g
            };
            (g2, Ok(EndPollResponse { passed, reason, refund }))
        }
    }
}

/// What the machine's word size forces on ending a poll: whenever the tally
/// runs against a nonzero reference weight, the quorum ratio must fit the
/// fixed-point range.
pub open spec fn end_args_ok(g: GovView, height: u64, contract_balance: u128, poll_id: u64) -> bool {
    (g.poll_exists(poll_id) && g.poll_of(poll_id).status is InProgress && height >= g.poll_of(
        poll_id,
    ).end_height && g.state.total_share != 0) ==> {
        let p = g.poll_of(poll_id);
        if p.staked_amount is Some {
            p.staked_amount->0 != 0 ==> tally(p) * FRACTIONAL / (p.staked_amount->0 as int)
                <= u128::MAX
        } else {
            (contract_balance >= g.state.total_deposit && contract_balance
                - g.state.total_deposit != 0) ==> tally(p) * FRACTIONAL / (contract_balance
                - g.state.total_deposit) <= u128::MAX
        }
    }
}

/// Executing a poll: only a passed poll, only once its timelock has elapsed,
/// and only when it carries an action list; it is then moved to Executed.
/// The actions themselves are returned by the executable operation, sorted
/// by their ordering key.
pub open spec fn execute_step(g: GovView, height: u64, poll_id: u64) -> (
    GovView,
    Result<(), GovError>,
) {
    if poll_id == 0 || g.state.poll_count < poll_id {
        (g, Err(GovError::PollNotFound))
    } else {
        let p = g.poll_of(poll_id);
        if !(p.status is Passed) {
            (g, Err(GovError::PollNotPassed))
        } else if p.end_height + g.config.timelock_period > height {
            (g, Err(GovError::TimelockNotExpired))
        } else if p.execute_data is None {
            (g, Err(GovError::NoExecuteData))
        } else {
            let p2 = PollView { status: PollStatus::Executed, ..p };
            let g2 = GovView {
                polls: g.polls.update(poll_id - 1, p2),
                passed: g.passed.remove_value(poll_id),
                executed: g.executed.push(poll_id),
                ..g
            };
            (g2, Ok(()))
        }
    }
}

/// What the machine's word sizes force on executing a poll: the end of the
/// timelock must not wrap.
pub open spec fn execute_args_ok(g: GovView, poll_id: u64) -> bool {
    (g.poll_exists(poll_id) && g.poll_of(poll_id).status is Passed) ==> g.poll_of(
        poll_id,
    ).end_height + g.config.timelock_period <= u64::MAX
}

/// Recording the share balance the staking module attributes to an account:
/// the ledger entry's share is replaced, its locked journal untouched; a
/// fresh account starts with an empty journal.
pub open spec fn set_share_step(g: GovView, account: u64, share: u128) -> GovView {
    let tm = if has_key(g.bank, account) {
        lookup(g.bank, account)
    } else {
        TokenManagerView { share: 0, locked_balance: Seq::empty() }
    };
    let tm2 = TokenManagerView { share, ..tm };
    let bank2 = if has_key(g.bank, account) {
        g.bank.update(key_index(g.bank, account), (account, tm2))
    } else {
        g.bank.push((account, tm2))
    };
    GovView { bank: bank2, ..g }
}

/// Registering the governance token: allowed exactly once, while it is still
/// unset.
pub open spec fn register_step(g: GovView, token: u64) -> (GovView, Result<(), GovError>) {
    if g.config.whale_token is Some {
        (g, Err(GovError::Unauthorized))
    } else {
        (GovView { config: Config { whale_token: Some(token), ..g.config }, ..g }, Ok(()))
    }
}

} // verus!
