//! Data model of the governance module: configuration, global state, polls,
//! votes, and the error taxonomy. Accounts and contracts are identified by
//! plain numeric identifiers; address canonicalization is the host's concern.

use vstd::prelude::*;
use crate::ratio::Decimal;

verus! {

/// A vote for or against a poll. Abstention is not modeled; only the two
/// tallied buckets exist.
#[derive(Clone, Copy, Debug, PartialEq, Eq, Structural)]
pub enum VoteOption {
    Yes,
    No,
}

/// The vote one account committed to one poll: its choice and the token
/// weight backing it. Created on the first vote and never mutated.
#[derive(Clone, Copy, Debug, PartialEq, Eq, Structural)]
pub struct VoterInfo {
    pub vote: VoteOption,
    pub balance: u128,
}

/// Lifecycle status of a poll. Transitions run strictly forward:
/// InProgress to Rejected or Passed, and Passed to Executed.
#[derive(Clone, Copy, Debug, PartialEq, Eq, Structural)]
pub enum PollStatus {
    InProgress,
    Rejected,
    Passed,
    Executed,
}

/// One action attached to a poll: an explicit ordering key, the contract the
/// action is addressed to, and an opaque payload.
#[derive(Clone, Debug, PartialEq, Eq)]
pub struct ExecuteData {
    pub order: u64,
    pub contract: u64,
    pub msg: Vec<u8>,
}

/// Mathematical model of one attached action.
pub struct ExecuteDataView {
    pub order: u64,
    pub contract: u64,
    pub msg: Seq<u8>,
}

impl View for ExecuteData {
    type V = ExecuteDataView;

    open spec fn view(&self) -> ExecuteDataView {
        ExecuteDataView { order: self.order, contract: self.contract, msg: self.msg@ }
    }
}

/// Immutable governance settings fixed at instantiation; the token identity
/// is registered once afterwards.
#[derive(Clone, Copy, Debug, PartialEq, Eq, Structural)]
pub struct Config {
    /// Identity of the governance token contract; unset until registered.
    pub whale_token: Option<u64>,
    /// Account that instantiated the module.
    pub owner: u64,
    /// Minimum fraction of the staked reference weight that must vote.
    pub quorum: Decimal,
    /// Minimum fraction of tallied weight that must vote yes to pass.
    pub threshold: Decimal,
    /// Block-height span during which a poll accepts votes.
    pub voting_period: u64,
    /// Block-height delay between passing and becoming executable.
    pub timelock_period: u64,
    /// Block-height span after which an executable poll expires.
    pub expiration_period: u64,
    /// Smallest deposit a proposal must carry.
    pub proposal_deposit: u128,
    /// Trailing window before a poll's end in which the staked reference
    /// weight is frozen at first touch.
    pub snapshot_period: u64,
}

/// Global counters shared by all polls.
#[derive(Clone, Copy, Debug, PartialEq, Eq, Structural)]
pub struct State {
    /// The governance module's own account, whose token balance the oracle
    /// reports.
    pub contract_addr: u64,
    /// Number of polls ever created; poll identifiers are one-based.
    pub poll_count: u64,
    /// Total issued governance shares, maintained by the staking module.
    pub total_share: u128,
    /// Sum of the deposits of all polls still in progress.
    pub total_deposit: u128,
}

/// One poll: its identity, tally accumulators, window bounds, metadata, and
/// the actions to dispatch if it passes.
#[derive(Clone, Debug, PartialEq, Eq)]
pub struct Poll {
    pub id: u64,
    pub creator: u64,
    pub status: PollStatus,
    pub yes_votes: u128,
    pub no_votes: u128,
    pub end_height: u64,
    pub title: String,
    pub description: String,
    pub link: Option<String>,
    pub execute_data: Option<Vec<ExecuteData>>,
    pub deposit_amount: u128,
    /// Reference weight the tally was computed against, set exactly once at
    /// the end of the poll.
    pub total_balance_at_end_poll: Option<u128>,
    /// Staked weight frozen during the snapshot window, set at most once.
    pub staked_amount: Option<u128>,
}

/// Mathematical model of one poll.
pub struct PollView {
    pub id: u64,
    pub creator: u64,
    pub status: PollStatus,
    pub yes_votes: u128,
    pub no_votes: u128,
    pub end_height: u64,
    pub title: Seq<char>,
    pub description: Seq<char>,
    pub link: Option<Seq<char>>,
    pub execute_data: Option<Seq<ExecuteDataView>>,
    pub deposit_amount: u128,
    pub total_balance_at_end_poll: Option<u128>,
    pub staked_amount: Option<u128>,
}

impl View for Poll {
    type V = PollView;

    open spec fn view(&self) -> PollView {
        PollView {
            id: self.id,
            creator: self.creator,
            status: self.status,
            yes_votes: self.yes_votes,
            no_votes: self.no_votes,
            end_height: self.end_height,
            title: self.title@,
            description: self.description@,
            link: match self.link {
                Some(l) => Some(l@),
                None => None,
            },
            execute_data: match self.execute_data {
                Some(v) => Some(v@.map_values(|e: ExecuteData| e@)),
                None => None,
            },
            deposit_amount: self.deposit_amount,
            total_balance_at_end_poll: self.total_balance_at_end_poll,
            staked_amount: self.staked_amount,
        }
    }
}

/// Per-account record kept by the voter ledger: the account's convertible
/// share balance and the append-only journal of weights locked per poll.
#[derive(Clone, Debug, PartialEq, Eq)]
pub struct TokenManager {
    pub share: u128,
    pub locked_balance: Vec<(u64, VoterInfo)>,
}

/// Mathematical model of one voter-ledger record.
pub struct TokenManagerView {
    pub share: u128,
    pub locked_balance: Seq<(u64, VoterInfo)>,
}

impl View for TokenManager {
    type V = TokenManagerView;

    open spec fn view(&self) -> TokenManagerView {
        TokenManagerView { share: self.share, locked_balance: self.locked_balance@ }
    }
}

/// Why an operation was refused. Every failed operation leaves the state
/// exactly as it was.
#[derive(Clone, Copy, Debug, PartialEq, Eq, Structural)]
pub enum GovError {
    /// The caller lacks the required role.
    Unauthorized,
    /// The proposal deposit is below the configured minimum, which the
    /// error carries.
    InsufficientProposalDeposit(u128),
    /// The poll identifier is zero or above the poll counter.
    PollNotFound,
    /// The poll is not accepting this transition in its current status.
    PollNotInProgress,
    /// The voting window has not closed yet.
    PollVotingPeriod,
    /// Only a passed poll can be executed.
    PollNotPassed,
    /// The timelock after passing has not elapsed yet.
    TimelockNotExpired,
    /// The voter already holds a vote record for this poll.
    AlreadyVoted,
    /// The voter's convertible balance is below the committed weight.
    InsufficientStaked,
    /// The poll carries no action list, so it can never be executed.
    NoExecuteData,
    /// The receive hook carried no parsable payload.
    DataShouldBeGiven,
    /// A balance or deposit subtraction would go below zero.
    Underflow,
}

/// Why a poll ended Rejected.
#[derive(Clone, Copy, Debug, PartialEq, Eq, Structural)]
pub enum RejectReason {
    QuorumNotReached,
    ThresholdNotReached,
}

/// A deposit refund owed to the poll creator, to be dispatched as a token
/// transfer by the host.
#[derive(Clone, Copy, Debug, PartialEq, Eq, Structural)]
pub struct RefundMsg {
    pub recipient: u64,
    pub amount: u128,
}

/// What creating a poll reports back.
#[derive(Clone, Copy, Debug, PartialEq, Eq, Structural)]
pub struct CreatePollResponse {
    pub poll_id: u64,
    pub end_height: u64,
}

/// What ending a poll reports back: the verdict, the reason when rejected,
/// and the refund transfer when one is owed.
#[derive(Clone, Copy, Debug, PartialEq, Eq, Structural)]
pub struct EndPollResponse {
    pub passed: bool,
    pub reason: Option<RejectReason>,
    pub refund: Option<RefundMsg>,
}

impl RejectReason {
    /// Human-readable form of the rejection reason.
    pub fn describe(&self) -> (r: String)
        ensures
            self is QuorumNotReached ==> r@ == "Quorum not reached"@,
            self is ThresholdNotReached ==> r@ == "Threshold not reached"@,
    {
        match self {
            RejectReason::QuorumNotReached => "Quorum not reached".to_string(),
            RejectReason::ThresholdNotReached => "Threshold not reached".to_string(),
        }
    }
}

/// Model of an optional piece of text.
pub open spec fn view_opt_text(o: Option<String>) -> Option<Seq<char>> {
    match o {
        Some(s) => Some(s@),
        None => None,
    }
}

/// Model of an optional action list.
pub open spec fn view_opt_data(o: Option<Vec<ExecuteData>>) -> Option<Seq<ExecuteDataView>> {
    match o {
        Some(v) => Some(v@.map_values(|e: ExecuteData| e@)),
        None => None,
    }
}

/// The payload of a governance-token receive hook.
pub enum HookMsg {
    CreatePoll {
        title: String,
        description: String,
        link: Option<String>,
        execute_msgs: Option<Vec<ExecuteData>>,
    },
}

/// One intent against the module, as the host hands it over: a token
/// receive hook carrying a proposal, or a lifecycle transition.
pub enum ExecuteMsg {
    Receive { sender: u64, hook_sender: u64, amount: u128, hook: Option<HookMsg> },
    EndPoll { poll_id: u64 },
    ExecutePoll { poll_id: u64 },
    RegisterContracts { whale_token: u64 },
}

/// What an intent reports back when it succeeds.
pub enum GovResponse {
    Created(CreatePollResponse),
    Ended(EndPollResponse),
    Dispatched(Vec<ExecuteData>),
    Registered,
}

/// A read-only question to the module.
pub enum QueryMsg {
    GetCount,
}

/// Answer to the poll-count question.
#[derive(Clone, Copy, Debug, PartialEq, Eq, Structural)]
pub struct CountResponse {
    pub count: u64,
}

} // verus!
