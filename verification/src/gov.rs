//! The executable governance module. Every operation lands exactly on the
//! transition function of the model and keeps the well-formedness invariant.

use vstd::prelude::*;
use crate::laws::{
    lemma_create_step_wf, lemma_deposit_covered, lemma_end_step_wf, lemma_execute_step_wf,
    lemma_set_share_step_wf, lemma_vote_step_wf,
};
use crate::model::{
    create_args_ok, create_step, end_args_ok, end_step, execute_args_ok, execute_step,
    register_step, set_share_step, vote_args_ok, vote_step, GovView,
};
use crate::ratio::{multiply_ratio, Decimal, FRACTIONAL};
use crate::seqs::{has_key, key_index, lemma_key_index};
use crate::sorting::{copy_actions, keyed, sort_by_order, sorted_by_order, views_of};
use crate::types::{
    view_opt_data, view_opt_text, Config, CountResponse, CreatePollResponse, EndPollResponse,
    ExecuteData, ExecuteMsg, GovError, GovResponse, HookMsg, Poll, PollStatus, QueryMsg,
    RefundMsg, RejectReason, State, TokenManager, VoteOption, VoterInfo,
};

verus! {

/// The governance module: configuration, counters, the poll store with its
/// per-poll voter maps, the per-account ledger, and the status index.
pub struct Gov {
    pub config: Config,
    pub state: State,
    pub polls: Vec<Poll>,
    pub voters: Vec<Vec<(u64, VoterInfo)>>,
    pub bank: Vec<(u64, TokenManager)>,
    pub in_progress: Vec<u64>,
    pub rejected: Vec<u64>,
    pub passed: Vec<u64>,
    pub executed: Vec<u64>,
}

impl View for Gov {
    type V = GovView;

    open spec fn view(&self) -> GovView {
        GovView {
            config: self.config,
            state: self.state,
            polls: self.polls@.map_values(|p: Poll| p@),
            voters: self.voters@.map_values(|v: Vec<(u64, VoterInfo)>| v@),
            bank: self.bank@.map_values(|e: (u64, TokenManager)| (e.0, e.1@)),
            in_progress: self.in_progress@,
            rejected: self.rejected@,
            passed: self.passed@,
            executed: self.executed@,
        }
    }
}

/// Position of the first entry carrying the key, if any.
fn find_key<V>(entries: &Vec<(u64, V)>, key: u64) -> (r: Option<usize>)
    ensures
        match r {
            Some(i) => i < entries@.len() && entries@[i as int].0 == key,
            None => !has_key(entries@, key),
        },
{
    let mut i: usize = 0;
    while i < entries.len()
        invariant
            i <= entries@.len(),
            forall|j: int| 0 <= j < i ==> (#[trigger] entries@[j]).0 != key,
        decreases entries@.len() - i,
    {
        if entries[i].0 == key {
            return Some(i);
        }
        i += 1;
    }
    None
}

/// Position of the first occurrence of the identifier, if any.
fn find_id(ids: &Vec<u64>, x: u64) -> (r: Option<usize>)
    ensures
        match r {
            Some(i) => {
                &&& i < ids@.len()
                &&& ids@[i as int] == x
                &&& forall|j: int| 0 <= j < i ==> ids@[j] != x
            },
            None => !ids@.contains(x),
        },
{
    let mut i: usize = 0;
    while i < ids.len()
        invariant
            i <= ids@.len(),
            forall|j: int| 0 <= j < i ==> ids@[j] != x,
        decreases ids@.len() - i,
    {
        if ids[i] == x {
            return Some(i);
        }
        i += 1;
    }
    None
}

impl Gov {
    /// The invariant of the module's state.
    pub open spec fn wf(&self) -> bool {
        self@.wf()
    }

    /// Sets the module up: the given settings, no registered token yet, no
    /// polls, no deposits, nothing staked.
    pub fn instantiate(
        owner: u64,
        contract_addr: u64,
        quorum: Decimal,
        threshold: Decimal,
        voting_period: u64,
        timelock_period: u64,
        expiration_period: u64,
        proposal_deposit: u128,
        snapshot_period: u64,
    ) -> (g: Gov)
        requires
            quorum.atomics <= FRACTIONAL,
            threshold.atomics <= FRACTIONAL,
        ensures
            g.wf(),
            g@.config == (Config {
                whale_token: None,
                owner,
                quorum,
                threshold,
                voting_period,
                timelock_period,
                expiration_period,
                proposal_deposit,
                snapshot_period,
            }),
            g@.state == (State { contract_addr, poll_count: 0, total_share: 0, total_deposit: 0 }),
            g@.polls.len() == 0,
            g@.bank.len() == 0,
    {
        let g = Gov {
            config: Config {
                whale_token: None,
                owner,
                quorum,
                threshold,
                voting_period,
                timelock_period,
                expiration_period,
                proposal_deposit,
                snapshot_period,
            },
            state: State { contract_addr, poll_count: 0, total_share: 0, total_deposit: 0 },
            polls: Vec::new(),
            voters: Vec::new(),
            bank: Vec::new(),
            in_progress: Vec::new(),
            rejected: Vec::new(),
            passed: Vec::new(),
            executed: Vec::new(),
        };
        proof {
            assert(g@.polls =~= Seq::<crate::types::PollView>::empty());
            assert(g@.voters =~= Seq::<Seq<(u64, VoterInfo)>>::empty());
            assert(g@.bank =~= Seq::<(u64, crate::types::TokenManagerView)>::empty());
        }
        g
    }

    /// Registers the governance token's identity; allowed exactly once.
    pub fn register_contracts(&mut self, whale_token: u64) -> (r: Result<(), GovError>)
        requires
            old(self).wf(),
        ensures
            final(self).wf(),
            final(self)@ =~~= register_step(old(self)@, whale_token).0,
            r == register_step(old(self)@, whale_token).1,
    {
        if self.config.whale_token.is_some() {
            return Err(GovError::Unauthorized);
        }
        self.config.whale_token = Some(whale_token);
        Ok(())
    }

    /// Records the convertible share balance the staking module attributes
    /// to the account. Staking itself lives outside this module; this is the
    /// boundary through which it writes the ledger.
    pub fn set_share(&mut self, account: u64, share: u128)
        requires
            old(self).wf(),
        ensures
            final(self).wf(),
            final(self)@ =~~= set_share_step(old(self)@, account, share),
    {
        proof {
            lemma_set_share_step_wf(old(self)@, account, share);
        }
        match find_key(&self.bank, account) {
            Some(i) => {
                proof {
                    assert(old(self)@.bank[i as int].0 == account);
                    lemma_key_index(old(self)@.bank, account);
                }
                self.bank[i].1.share = share;
                proof {
                    assert(self@.bank =~= set_share_step(old(self)@, account, share).bank);
                }
            },
            None => {
                proof {
                    assert(!has_key(old(self)@.bank, account)) by {
                        if has_key(old(self)@.bank, account) {
                            let j = key_index(old(self)@.bank, account);
                            assert(self.bank@[j].0 == account);
                        }
                    }
                }
                self.bank.push((account, TokenManager { share, locked_balance: Vec::new() }));
                proof {
                    assert(self@.bank =~= set_share_step(old(self)@, account, share).bank);
                }
            },
        }
    }

    /// Records the total of issued governance shares as the staking module
    /// reports it.
    pub fn set_total_share(&mut self, total_share: u128)
        requires
            old(self).wf(),
        ensures
            final(self).wf(),
            final(self)@ =~~= (GovView {
                state: (State { total_share, ..old(self)@.state }),
                ..old(self)@
            }),
    {
        self.state.total_share = total_share;
    }

    /// Creates a poll. Refused with the required minimum when the deposit is
    /// too small; otherwise the next identifier is allocated, the poll opens
    /// in progress until the current height plus the voting period, and the
    /// counters grow by one poll and its deposit.
    pub fn create_poll(
        &mut self,
        height: u64,
        proposer: u64,
        deposit_amount: u128,
        title: String,
        description: String,
        link: Option<String>,
        execute_msgs: Option<Vec<ExecuteData>>,
    ) -> (r: Result<CreatePollResponse, GovError>)
        requires
            old(self).wf(),
            create_args_ok(old(self)@, height, deposit_amount),
        ensures
            final(self).wf(),
            final(self)@ =~~= create_step(
                old(self)@,
                height,
                proposer,
                deposit_amount,
                title@,
                description@,
                view_opt_text(link),
                view_opt_data(execute_msgs),
            ).0,
            r == create_step(
                old(self)@,
                height,
                proposer,
                deposit_amount,
                title@,
                description@,
                view_opt_text(link),
                view_opt_data(execute_msgs),
            ).1,
    {
        proof {
            lemma_create_step_wf(
                old(self)@,
                height,
                proposer,
                deposit_amount,
                title@,
                description@,
                view_opt_text(link),
                view_opt_data(execute_msgs),
            );
        }
        if deposit_amount < self.config.proposal_deposit {
            return Err(GovError::InsufficientProposalDeposit(self.config.proposal_deposit));
        }
        let poll_id = self.state.poll_count + 1;
        let end_height = height + self.config.voting_period;
        self.state.poll_count = poll_id;
        self.state.total_deposit = self.state.total_deposit + deposit_amount;
        let new_poll = Poll {
            id: poll_id,
            creator: proposer,
            status: PollStatus::InProgress,
            yes_votes: 0,
            no_votes: 0,
            end_height,
            title,
            description,
            link,
            execute_data: execute_msgs,
            deposit_amount,
            total_balance_at_end_poll: None,
            staked_amount: None,
        };
        self.polls.push(new_poll);
        self.voters.push(Vec::new());
        self.in_progress.push(poll_id);
        proof {
            let g2 = create_step(
                old(self)@,
                height,
                proposer,
                deposit_amount,
                title@,
                description@,
                view_opt_text(link),
                view_opt_data(execute_msgs),
            ).0;
            assert(self@.polls =~= g2.polls);
            assert(self@.voters =~= g2.voters);
            assert(self@ =~~= g2);
        }
        Ok(CreatePollResponse { poll_id, end_height })
    }

    /// Casts a vote. The poll must exist, be in progress with its window
    /// still open, and not have heard from this voter; the voter's
    /// convertible balance — share times the pooled balance net of deposits
    /// over the total shares — must cover the committed weight. The weight
    /// lands in the chosen bucket, the vote record and the ledger journal
    /// entry are stored, and inside the snapshot window the net balance is
    /// frozen at first touch. `contract_balance` is the oracle's answer for
    /// the module's own token holdings.
    pub fn cast_vote(
        &mut self,
        height: u64,
        contract_balance: u128,
        voter: u64,
        poll_id: u64,
        vote: VoteOption,
        amount: u128,
    ) -> (r: Result<(), GovError>)
        requires
            old(self).wf(),
            vote_args_ok(old(self)@, height, contract_balance, voter, poll_id, amount),
        ensures
            final(self).wf(),
            final(self)@ =~~= vote_step(
                old(self)@,
                height,
                contract_balance,
                voter,
                poll_id,
                vote,
                amount,
            ).0,
            r == vote_step(old(self)@, height, contract_balance, voter, poll_id, vote, amount).1,
    {
        proof {
            lemma_vote_step_wf(old(self)@, height, contract_balance, voter, poll_id, vote, amount);
        }
        if poll_id == 0 || self.state.poll_count < poll_id {
            return Err(GovError::PollNotFound);
        }
        let n = self.polls.len();
        proof {
            assert(poll_id - 1 < n);
        }
        let idx = (poll_id - 1) as usize;
        if !matches!(self.polls[idx].status, PollStatus::InProgress) || height
            > self.polls[idx].end_height {
            return Err(GovError::PollNotInProgress);
        }
        if find_key(&self.voters[idx], voter).is_some() {
            return Err(GovError::AlreadyVoted);
        }
        proof {
            assert(!old(self)@.has_voted(poll_id, voter));
        }
        if contract_balance < self.state.total_deposit {
            return Err(GovError::Underflow);
        }
        let total_balance = contract_balance - self.state.total_deposit;
        let bank_pos = find_key(&self.bank, voter);
        let share = match bank_pos {
            Some(i) => self.bank[i].1.share,
            None => 0,
        };
        proof {
            match bank_pos {
                Some(i) => {
                    assert(old(self)@.bank[i as int].0 == voter);
                    lemma_key_index(old(self)@.bank, voter);
                    assert(share == old(self)@.share_of(voter));
                },
                None => {
                    assert(share == old(self)@.share_of(voter));
                },
            }
        }
        let convertible = multiply_ratio(share, total_balance, self.state.total_share);
        if convertible < amount {
            return Err(GovError::InsufficientStaked);
        }
        if matches!(vote, VoteOption::Yes) {
            self.polls[idx].yes_votes = self.polls[idx].yes_votes + amount;
        } else {
            self.polls[idx].no_votes = self.polls[idx].no_votes + amount;
        }
        let info = VoterInfo { vote, balance: amount };
        self.voters[idx].push((voter, info));
        match bank_pos {
            Some(i) => {
                self.bank[i].1.locked_balance.push((poll_id, info));
            },
            None => {
                let mut locked: Vec<(u64, VoterInfo)> = Vec::new();
                locked.push((poll_id, info));
                self.bank.push((voter, TokenManager { share: 0, locked_balance: locked }));
            },
        }
        let time_to_end = self.polls[idx].end_height - height;
        if time_to_end < self.config.snapshot_period && self.polls[idx].staked_amount.is_none() {
            self.polls[idx].staked_amount = Some(total_balance);
        }
        proof {
            let g2 = vote_step(old(self)@, height, contract_balance, voter, poll_id, vote, amount).0;
            assert(self@.polls =~= g2.polls);
            assert(self@.voters =~= g2.voters);
            assert(self@.bank =~= g2.bank);
            assert(self@ =~~= g2);
        }
        Ok(())
    }

    /// Ends a poll once its voting window has closed. The tally is held
    /// against the quorum — over the frozen snapshot when one exists, over
    /// the live balance net of deposits otherwise; the quorum is zero when no
    /// shares are issued or the reference weight is zero — then the
    /// yes-fraction against the threshold. The
    /// poll moves to Passed or Rejected, the reference weight is recorded,
    /// the running deposit total is relieved, and the deposit is refunded to
    /// the creator exactly when quorum was reached and the deposit is not
    /// zero. `contract_balance` is the oracle's answer for the module's own
    /// token holdings.
    pub fn end_poll(&mut self, height: u64, contract_balance: u128, poll_id: u64) -> (r: Result<
        EndPollResponse,
        GovError,
    >)
        requires
            old(self).wf(),
            end_args_ok(old(self)@, height, contract_balance, poll_id),
        ensures
            final(self).wf(),
            final(self)@ =~~= end_step(old(self)@, height, contract_balance, poll_id).0,
            r == end_step(old(self)@, height, contract_balance, poll_id).1,
    {
        proof {
            lemma_end_step_wf(old(self)@, height, contract_balance, poll_id);
        }
        if poll_id == 0 || self.state.poll_count < poll_id {
            return Err(GovError::PollNotFound);
        }
        let n = self.polls.len();
        proof {
            assert(poll_id - 1 < n);
        }
        let idx = (poll_id - 1) as usize;
        if !matches!(self.polls[idx].status, PollStatus::InProgress) {
            return Err(GovError::PollNotInProgress);
        }
        if self.polls[idx].end_height > height {
            return Err(GovError::PollVotingPeriod);
        }
        let yes = self.polls[idx].yes_votes;
        let no = self.polls[idx].no_votes;
        let tallied = yes + no;
        let quorum: Decimal;
        let staked_weight: u128;
        if self.state.total_share == 0 {
            quorum = Decimal::zero();
            staked_weight = 0;
        } else if let Some(staked) = self.polls[idx].staked_amount {
            quorum = if staked == 0 {
                Decimal::zero()
            } else {
                Decimal::from_ratio(tallied, staked)
            };
            staked_weight = staked;
        } else {
            if contract_balance < self.state.total_deposit {
                return Err(GovError::Underflow);
            }
            let live = contract_balance - self.state.total_deposit;
            quorum = if live == 0 {
                Decimal::zero()
            } else {
                Decimal::from_ratio(tallied, live)
            };
            staked_weight = live;
        }
        let mut passed = false;
        let mut reason: Option<RejectReason> = None;
        let mut refund: Option<RefundMsg> = None;
        if tallied == 0 || quorum.lt(&self.config.quorum) {
            reason = Some(RejectReason::QuorumNotReached);
        } else {
            proof {
                assert((yes as int) * (FRACTIONAL as int) / (tallied as int) <= FRACTIONAL as int)
                    by (nonlinear_arith)
                    requires
                        0 < tallied as int,
                        yes as int <= tallied as int,
                        FRACTIONAL as int > 0,
                ;
            }
            let yes_ratio = Decimal::from_ratio(yes, tallied);
            if yes_ratio.gt(&self.config.threshold) {
                passed = true;
            } else {
                reason = Some(RejectReason::ThresholdNotReached);
            }
            if self.polls[idx].deposit_amount != 0 {
                refund = Some(
                    RefundMsg {
                        recipient: self.polls[idx].creator,
                        amount: self.polls[idx].deposit_amount,
                    },
                );
            }
        }
        proof {
            lemma_deposit_covered(old(self)@, poll_id);
        }
        self.state.total_deposit = self.state.total_deposit - self.polls[idx].deposit_amount;
        let pos = match find_id(&self.in_progress, poll_id) {
            Some(p) => p,
            None => {
                proof {
                    assert(false);
                }
                0
            },
        };
        proof {
            let ip = old(self)@.in_progress;
            ip.index_of_first_ensures(poll_id);
            let k = ip.index_of_first(poll_id)->0;
            if k < pos {
                assert(ip[k] == poll_id);
                assert(false);
            }
            if k > pos {
                assert(ip[pos as int] == poll_id);
                assert(false);
            }
        }
        self.in_progress.remove(pos);
        if passed {
            self.passed.push(poll_id);
            self.polls[idx].status = PollStatus::Passed;
        } else {
            self.rejected.push(poll_id);
            self.polls[idx].status = PollStatus::Rejected;
        }
        self.polls[idx].total_balance_at_end_poll = Some(staked_weight);
        proof {
            let g2 = end_step(old(self)@, height, contract_balance, poll_id).0;
            assert(self@.polls =~= g2.polls);
            assert(self@.voters =~= g2.voters);
            assert(self@.bank =~= g2.bank);
            assert(self@ =~~= g2);
        }
        Ok(EndPollResponse { passed, reason, refund })
    }

    /// Executes a passed poll once its timelock has elapsed: the poll moves
    /// to Executed and its attached actions come back sorted ascending by
    /// their ordering key, one dispatch per action, ready for the host to
    /// send with no attached funds. A passed poll without actions is refused
    /// and stays passed.
    pub fn execute_poll(&mut self, height: u64, poll_id: u64) -> (r: Result<
        Vec<ExecuteData>,
        GovError,
    >)
        requires
            old(self).wf(),
            execute_args_ok(old(self)@, poll_id),
        ensures
            final(self).wf(),
            final(self)@ =~~= execute_step(old(self)@, height, poll_id).0,
            (r is Ok) == (execute_step(old(self)@, height, poll_id).1 is Ok),
            r matches Err(e) ==> execute_step(old(self)@, height, poll_id).1 == Err::<
                (),
                GovError,
            >(e),
            r matches Ok(msgs) ==> {
                &&& old(self)@.poll_of(poll_id).execute_data is Some
                &&& msgs@.len() == old(self)@.poll_of(poll_id).execute_data->0.len()
                &&& sorted_by_order(msgs@)
                &&& views_of(msgs@).to_multiset() == old(self)@.poll_of(
                    poll_id,
                ).execute_data->0.to_multiset()
                &&& forall|k: u64| #[trigger] keyed(views_of(msgs@), k) == keyed(
                    old(self)@.poll_of(poll_id).execute_data->0,
                    k,
                )
            },
    {
        proof {
            lemma_execute_step_wf(old(self)@, height, poll_id);
        }
        if poll_id == 0 || self.state.poll_count < poll_id {
            return Err(GovError::PollNotFound);
        }
        let n = self.polls.len();
        proof {
            assert(poll_id - 1 < n);
        }
        let idx = (poll_id - 1) as usize;
        if !matches!(self.polls[idx].status, PollStatus::Passed) {
            return Err(GovError::PollNotPassed);
        }
        if self.polls[idx].end_height + self.config.timelock_period > height {
            return Err(GovError::TimelockNotExpired);
        }
        let msgs: Vec<ExecuteData> = match &self.polls[idx].execute_data {
            Some(data) => copy_actions(data),
            None => {
                return Err(GovError::NoExecuteData);
            },
        };
        let pos = match find_id(&self.passed, poll_id) {
            Some(p) => p,
            None => {
                proof {
                    assert(false);
                }
                0
            },
        };
        proof {
            let ps = old(self)@.passed;
            ps.index_of_first_ensures(poll_id);
            let k = ps.index_of_first(poll_id)->0;
            if k < pos {
                assert(ps[k] == poll_id);
                assert(false);
            }
            if k > pos {
                assert(ps[pos as int] == poll_id);
                assert(false);
            }
        }
        self.passed.remove(pos);
        self.executed.push(poll_id);
        self.polls[idx].status = PollStatus::Executed;
        let sorted = sort_by_order(msgs);
        proof {
            let g2 = execute_step(old(self)@, height, poll_id).0;
            assert(self@.polls =~= g2.polls);
            assert(self@.voters =~= g2.voters);
            assert(self@.bank =~= g2.bank);
            assert(self@ =~~= g2);
            assert(views_of(msgs@) =~= old(self)@.poll_of(poll_id).execute_data->0);
        }
        Ok(sorted)
    }

    /// Handles a receive hook of the governance token: only the registered
    /// token contract may drive it, and the hook must carry a proposal; the
    /// proposal is then created for the hook's sender, with the received
    /// amount as its deposit.
    pub fn receive_cw20(
        &mut self,
        height: u64,
        sender: u64,
        hook_sender: u64,
        amount: u128,
        hook: Option<HookMsg>,
    ) -> (r: Result<CreatePollResponse, GovError>)
        requires
            old(self).wf(),
            old(self)@.config.whale_token == Some(sender) && hook is Some ==> create_args_ok(
                old(self)@,
                height,
                amount,
            ),
        ensures
            final(self).wf(),
            old(self)@.config.whale_token != Some(sender) ==> final(self)@ =~~= old(self)@ && r
                == Err::<CreatePollResponse, GovError>(GovError::Unauthorized),
            old(self)@.config.whale_token == Some(sender) && hook is None ==> final(self)@
                =~~= old(self)@ && r == Err::<CreatePollResponse, GovError>(
                GovError::DataShouldBeGiven,
            ),
            old(self)@.config.whale_token == Some(sender) ==> (hook matches Some(
                HookMsg::CreatePoll { title, description, link, execute_msgs },
            ) ==> {
                &&& final(self)@ =~~= create_step(
                    old(self)@,
                    height,
                    hook_sender,
                    amount,
                    title@,
                    description@,
                    view_opt_text(link),
                    view_opt_data(execute_msgs),
                ).0
                &&& r == create_step(
                    old(self)@,
                    height,
                    hook_sender,
                    amount,
                    title@,
                    description@,
                    view_opt_text(link),
                    view_opt_data(execute_msgs),
                ).1
            }),
    {
        let authorized = match self.config.whale_token {
            Some(t) => t == sender,
            None => false,
        };
        if !authorized {
            return Err(GovError::Unauthorized);
        }
        match hook {
            Some(HookMsg::CreatePoll { title, description, link, execute_msgs }) => self
                .create_poll(height, hook_sender, amount, title, description, link, execute_msgs),
            None => Err(GovError::DataShouldBeGiven),
        }
    }

    /// Routes one intent to its lifecycle operation. `contract_balance` is
    /// the oracle's answer for the module's own token holdings, consulted by
    /// the ending tally.
    pub fn execute(&mut self, height: u64, contract_balance: u128, msg: ExecuteMsg) -> (r: Result<
        GovResponse,
        GovError,
    >)
        requires
            old(self).wf(),
            msg matches ExecuteMsg::Receive { sender, hook_sender, amount, hook }
                ==> (old(self)@.config.whale_token == Some(sender) && hook is Some
                ==> create_args_ok(old(self)@, height, amount)),
            msg matches ExecuteMsg::EndPoll { poll_id } ==> end_args_ok(
                old(self)@,
                height,
                contract_balance,
                poll_id,
            ),
            msg matches ExecuteMsg::ExecutePoll { poll_id } ==> execute_args_ok(
                old(self)@,
                poll_id,
            ),
        ensures
            final(self).wf(),
            msg matches ExecuteMsg::RegisterContracts { whale_token } ==> {
                &&& final(self)@ =~~= register_step(old(self)@, whale_token).0
                &&& (register_step(old(self)@, whale_token).1 is Ok ==> r == Ok::<
                    GovResponse,
                    GovError,
                >(GovResponse::Registered))
                &&& (register_step(old(self)@, whale_token).1 matches Err(e) ==> r == Err::<
                    GovResponse,
                    GovError,
                >(e))
            },
            msg matches ExecuteMsg::EndPoll { poll_id } ==> {
                &&& final(self)@ =~~= end_step(old(self)@, height, contract_balance, poll_id).0
                &&& (end_step(old(self)@, height, contract_balance, poll_id).1 matches Ok(resp)
                    ==> r == Ok::<GovResponse, GovError>(GovResponse::Ended(resp)))
                &&& (end_step(old(self)@, height, contract_balance, poll_id).1 matches Err(e)
                    ==> r == Err::<GovResponse, GovError>(e))
            },
            msg matches ExecuteMsg::ExecutePoll { poll_id } ==> {
                &&& final(self)@ =~~= execute_step(old(self)@, height, poll_id).0
                &&& (execute_step(old(self)@, height, poll_id).1 matches Err(e) ==> r == Err::<
                    GovResponse,
                    GovError,
                >(e))
                &&& (execute_step(old(self)@, height, poll_id).1 is Ok ==> (r matches Ok(
                    GovResponse::Dispatched(msgs),
                ) && sorted_by_order(msgs@) && views_of(msgs@).to_multiset()
                    == old(self)@.poll_of(poll_id).execute_data->0.to_multiset()))
            },
            msg matches ExecuteMsg::Receive { sender, hook_sender, amount, hook } ==> {
                &&& (old(self)@.config.whale_token != Some(sender) ==> final(self)@
                    =~~= old(self)@ && r == Err::<GovResponse, GovError>(GovError::Unauthorized))
                &&& (old(self)@.config.whale_token == Some(sender) && hook is None
                    ==> final(self)@ =~~= old(self)@ && r == Err::<GovResponse, GovError>(
                    GovError::DataShouldBeGiven,
                ))
                &&& (old(self)@.config.whale_token == Some(sender) ==> (hook matches Some(
                    HookMsg::CreatePoll { title, description, link, execute_msgs },
                ) ==> {
                    &&& final(self)@ =~~= create_step(
                        old(self)@,
                        height,
                        hook_sender,
                        amount,
                        title@,
                        description@,
                        view_opt_text(link),
                        view_opt_data(execute_msgs),
                    ).0
                    &&& (create_step(
                        old(self)@,
                        height,
                        hook_sender,
                        amount,
                        title@,
                        description@,
                        view_opt_text(link),
                        view_opt_data(execute_msgs),
                    ).1 matches Ok(resp) ==> r == Ok::<GovResponse, GovError>(
                        GovResponse::Created(resp),
                    ))
                    &&& (create_step(
                        old(self)@,
                        height,
                        hook_sender,
                        amount,
                        title@,
                        description@,
                        view_opt_text(link),
                        view_opt_data(execute_msgs),
                    ).1 matches Err(e) ==> r == Err::<GovResponse, GovError>(e))
                }))
            },
    {
        match msg {
            ExecuteMsg::Receive { sender, hook_sender, amount, hook } => {
                match self.receive_cw20(height, sender, hook_sender, amount, hook) {
                    Ok(resp) => Ok(GovResponse::Created(resp)),
                    Err(e) => Err(e),
                }
            },
            ExecuteMsg::EndPoll { poll_id } => {
                match self.end_poll(height, contract_balance, poll_id) {
                    Ok(resp) => Ok(GovResponse::Ended(resp)),
                    Err(e) => Err(e),
                }
            },
            ExecuteMsg::ExecutePoll { poll_id } => {
                match self.execute_poll(height, poll_id) {
                    Ok(msgs) => Ok(GovResponse::Dispatched(msgs)),
                    Err(e) => Err(e),
                }
            },
            ExecuteMsg::RegisterContracts { whale_token } => {
                match self.register_contracts(whale_token) {
                    Ok(_) => Ok(GovResponse::Registered),
                    Err(e) => Err(e),
                }
            },
        }
    }

    /// Answers a read-only question.
    pub fn query(&self, msg: QueryMsg) -> (r: CountResponse)
        ensures
            r.count == self@.state.poll_count,
    {
        match msg {
            QueryMsg::GetCount => CountResponse { count: self.state.poll_count },
        }
    }

    /// How many polls were ever created.
    pub fn query_count(&self) -> (r: u64)
        ensures
            r == self@.state.poll_count,
    {
        self.state.poll_count
    }
}

} // verus!
