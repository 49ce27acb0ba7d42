use whale_gov::gov::Gov;
use whale_gov::ratio::{Decimal, FRACTIONAL};
use whale_gov::types::{
    CountResponse, ExecuteData, ExecuteMsg, GovError, GovResponse, HookMsg, PollStatus, QueryMsg,
    RefundMsg, RejectReason, VoteOption,
};

const TOKEN: u64 = 77;
const OWNER: u64 = 1;
const GOV_ADDR: u64 = 2;
const CREATOR: u64 = 9;

/// A module with 40% quorum, 50% threshold, a voting period of 100 blocks, a
/// timelock of 10 blocks, a snapshot window of 20 blocks, and no deposit
/// minimum; the governance token is registered.
fn setup() -> Gov {
    let mut gov = Gov::instantiate(
        OWNER,
        GOV_ADDR,
        Decimal::percent(40),
        Decimal::percent(50),
        100,
        10,
        1000,
        0,
        20,
    );
    gov.register_contracts(TOKEN).unwrap();
    gov
}

fn new_poll(gov: &mut Gov, deposit: u128, actions: Option<Vec<ExecuteData>>) -> u64 {
    let resp = gov
        .create_poll(
            1000,
            CREATOR,
            deposit,
            "title".to_string(),
            "description".to_string(),
            None,
            actions,
        )
        .unwrap();
    resp.poll_id
}

fn stake(gov: &mut Gov, account: u64, share: u128, total: u128) {
    gov.set_share(account, share);
    gov.set_total_share(total);
}

#[test]
fn create_poll_assigns_ids_and_deposit() {
    let mut gov = setup();
    let r = gov
        .create_poll(
            1000,
            CREATOR,
            100,
            "a".to_string(),
            "b".to_string(),
            Some("link".to_string()),
            None,
        )
        .unwrap();
    assert_eq!(r.poll_id, 1);
    assert_eq!(r.end_height, 1100);
    let r2 = gov
        .create_poll(1005, 4, 7, "c".to_string(), "d".to_string(), None, None)
        .unwrap();
    assert_eq!(r2.poll_id, 2);
    assert_eq!(r2.end_height, 1105);
    assert_eq!(gov.state.poll_count, 2);
    assert_eq!(gov.state.total_deposit, 107);
    assert_eq!(gov.polls[0].status, PollStatus::InProgress);
    assert_eq!(gov.polls[0].creator, CREATOR);
    assert_eq!(gov.polls[0].deposit_amount, 100);
    assert_eq!(gov.in_progress, vec![1, 2]);
}

#[test]
fn create_poll_insufficient_deposit() {
    let mut gov = Gov::instantiate(
        OWNER,
        GOV_ADDR,
        Decimal::percent(40),
        Decimal::percent(50),
        100,
        10,
        1000,
        500,
        20,
    );
    let r = gov.create_poll(
        1000,
        CREATOR,
        499,
        "t".to_string(),
        "d".to_string(),
        None,
        None,
    );
    assert_eq!(r, Err(GovError::InsufficientProposalDeposit(500)));
    assert_eq!(gov.state.poll_count, 0);
    assert_eq!(gov.state.total_deposit, 0);
}

#[test]
fn vote_tally_accumulates() {
    let mut gov = setup();
    let id = new_poll(&mut gov, 100, None);
    stake(&mut gov, 5, 1000, 1000);
    gov.set_share(6, 1000);
    // oracle 400, deposits 100: each voter converts to 300
    gov.cast_vote(1001, 400, 5, id, VoteOption::Yes, 70).unwrap();
    gov.cast_vote(1002, 400, 6, id, VoteOption::No, 30).unwrap();
    assert_eq!(gov.polls[0].yes_votes, 70);
    assert_eq!(gov.polls[0].no_votes, 30);
    let committed: u128 = gov.voters[0].iter().map(|(_, v)| v.balance).sum();
    assert_eq!(gov.polls[0].yes_votes + gov.polls[0].no_votes, committed);
    assert_eq!(gov.voters[0].len(), 2);
    assert_eq!(gov.voters[0][0].0, 5);
    assert_eq!(gov.voters[0][0].1.vote, VoteOption::Yes);
    assert_eq!(gov.voters[0][0].1.balance, 70);
    // the voter's locked-balance journal records the committed weight
    assert_eq!(gov.bank[0].0, 5);
    assert_eq!(gov.bank[0].1.locked_balance.len(), 1);
    assert_eq!(gov.bank[0].1.locked_balance[0].0, id);
    assert_eq!(gov.bank[0].1.locked_balance[0].1.balance, 70);
}

#[test]
fn second_vote_rejected() {
    let mut gov = setup();
    let id = new_poll(&mut gov, 100, None);
    stake(&mut gov, 5, 1000, 1000);
    gov.cast_vote(1001, 400, 5, id, VoteOption::Yes, 70).unwrap();
    // a different choice and weight change nothing
    let r = gov.cast_vote(1002, 400, 5, id, VoteOption::No, 1);
    assert_eq!(r, Err(GovError::AlreadyVoted));
    let r = gov.cast_vote(1003, 9999, 5, id, VoteOption::Yes, 300);
    assert_eq!(r, Err(GovError::AlreadyVoted));
    assert_eq!(gov.polls[0].yes_votes, 70);
    assert_eq!(gov.polls[0].no_votes, 0);
    assert_eq!(gov.voters[0].len(), 1);
}

#[test]
fn vote_error_taxonomy() {
    let mut gov = setup();
    let id = new_poll(&mut gov, 100, None);
    stake(&mut gov, 5, 1000, 1000);
    // unknown identifiers
    assert_eq!(
        gov.cast_vote(1001, 400, 5, 0, VoteOption::Yes, 1),
        Err(GovError::PollNotFound)
    );
    assert_eq!(
        gov.cast_vote(1001, 400, 5, 2, VoteOption::Yes, 1),
        Err(GovError::PollNotFound)
    );
    // window closed
    assert_eq!(
        gov.cast_vote(1101, 400, 5, id, VoteOption::Yes, 1),
        Err(GovError::PollNotInProgress)
    );
    // oracle balance below the pending deposits
    assert_eq!(
        gov.cast_vote(1001, 99, 5, id, VoteOption::Yes, 1),
        Err(GovError::Underflow)
    );
    // weight above the convertible balance
    assert_eq!(
        gov.cast_vote(1001, 400, 5, id, VoteOption::Yes, 301),
        Err(GovError::InsufficientStaked)
    );
    // an account with no stake converts to nothing
    assert_eq!(
        gov.cast_vote(1001, 400, 6, id, VoteOption::Yes, 1),
        Err(GovError::InsufficientStaked)
    );
    assert_eq!(gov.polls[0].yes_votes, 0);
    assert_eq!(gov.polls[0].no_votes, 0);
}

#[test]
fn vote_conversion_boundary() {
    let mut gov = setup();
    let id = new_poll(&mut gov, 100, None);
    // share 1 of 2 total, net balance 100: convertible is exactly 50
    gov.set_share(5, 1);
    gov.set_share(6, 1);
    gov.set_total_share(2);
    assert_eq!(
        gov.cast_vote(1001, 200, 5, id, VoteOption::Yes, 51),
        Err(GovError::InsufficientStaked)
    );
    gov.cast_vote(1001, 200, 5, id, VoteOption::Yes, 50).unwrap();
    assert_eq!(gov.polls[0].yes_votes, 50);
}

#[test]
fn end_before_close_rejected() {
    let mut gov = setup();
    let id = new_poll(&mut gov, 100, None);
    stake(&mut gov, 5, 1000, 1000);
    let r = gov.end_poll(1099, 300, id);
    assert_eq!(r, Err(GovError::PollVotingPeriod));
    assert_eq!(gov.polls[0].status, PollStatus::InProgress);
    assert_eq!(gov.state.total_deposit, 100);
}

#[test]
fn end_passes_quorum_and_threshold() {
    let mut gov = setup();
    let id = new_poll(&mut gov, 100, None);
    stake(&mut gov, 5, 1000, 1000);
    gov.set_share(6, 1000);
    gov.cast_vote(1001, 400, 5, id, VoteOption::Yes, 70).unwrap();
    gov.cast_vote(1002, 400, 6, id, VoteOption::No, 30).unwrap();
    // reference weight 300 - 100 = 200: quorum 100/200 = 0.5 >= 0.4,
    // yes ratio 70/100 = 0.7 > 0.5
    let resp = gov.end_poll(1100, 300, id).unwrap();
    assert!(resp.passed);
    assert_eq!(resp.reason, None);
    assert_eq!(
        resp.refund,
        Some(RefundMsg {
            recipient: CREATOR,
            amount: 100
        })
    );
    assert_eq!(gov.polls[0].status, PollStatus::Passed);
    assert_eq!(gov.polls[0].total_balance_at_end_poll, Some(200));
    assert_eq!(gov.state.total_deposit, 0);
    assert!(gov.in_progress.is_empty());
    assert_eq!(gov.passed, vec![id]);
}

#[test]
fn end_quorum_failure_keeps_deposit() {
    let mut gov = setup();
    let id = new_poll(&mut gov, 100, None);
    stake(&mut gov, 5, 1000, 1000);
    gov.set_share(6, 1000);
    // oracle 1100 while voting: each converts to 1000
    gov.cast_vote(1001, 1100, 5, id, VoteOption::Yes, 10).unwrap();
    gov.cast_vote(1002, 1100, 6, id, VoteOption::No, 5).unwrap();
    // reference weight 1100 - 100 = 1000: quorum 15/1000 = 0.015 < 0.4
    let resp = gov.end_poll(1100, 1100, id).unwrap();
    assert!(!resp.passed);
    assert_eq!(resp.reason, Some(RejectReason::QuorumNotReached));
    assert_eq!(resp.reason.unwrap().describe(), "Quorum not reached");
    // the deposit is not refunded, yet leaves the running total
    assert_eq!(resp.refund, None);
    assert_eq!(gov.state.total_deposit, 0);
    assert_eq!(gov.polls[0].status, PollStatus::Rejected);
    assert_eq!(gov.rejected, vec![id]);
}

#[test]
fn end_threshold_failure_refunds_deposit() {
    let mut gov = setup();
    let id = new_poll(&mut gov, 100, None);
    stake(&mut gov, 5, 1000, 1000);
    gov.set_share(6, 1000);
    gov.cast_vote(1001, 400, 5, id, VoteOption::Yes, 40).unwrap();
    gov.cast_vote(1002, 400, 6, id, VoteOption::No, 60).unwrap();
    // quorum 100/200 = 0.5 reached; yes ratio 0.4 <= 0.5
    let resp = gov.end_poll(1100, 300, id).unwrap();
    assert!(!resp.passed);
    assert_eq!(resp.reason, Some(RejectReason::ThresholdNotReached));
    assert_eq!(resp.reason.unwrap().describe(), "Threshold not reached");
    assert_eq!(
        resp.refund,
        Some(RefundMsg {
            recipient: CREATOR,
            amount: 100
        })
    );
    assert_eq!(gov.polls[0].status, PollStatus::Rejected);
}

#[test]
fn end_twice_rejected() {
    let mut gov = setup();
    let id = new_poll(&mut gov, 100, None);
    stake(&mut gov, 5, 1000, 1000);
    gov.cast_vote(1001, 400, 5, id, VoteOption::Yes, 70).unwrap();
    gov.end_poll(1100, 300, id).unwrap();
    let r = gov.end_poll(1200, 300, id);
    assert_eq!(r, Err(GovError::PollNotInProgress));
    // and an unknown poll is not found
    assert_eq!(gov.end_poll(1200, 300, 7), Err(GovError::PollNotFound));
}

#[test]
fn end_with_zero_live_reference_rejects_for_quorum() {
    let mut gov = setup();
    let id = new_poll(&mut gov, 100, None);
    stake(&mut gov, 5, 1000, 1000);
    gov.cast_vote(1001, 400, 5, id, VoteOption::Yes, 70).unwrap();
    // at the end the oracle reports exactly the pending deposits: the live
    // reference weight is zero, so the quorum is zero and the poll fails it
    let resp = gov.end_poll(1100, 100, id).unwrap();
    assert!(!resp.passed);
    assert_eq!(resp.reason, Some(RejectReason::QuorumNotReached));
    assert_eq!(resp.refund, None);
    assert_eq!(gov.polls[0].status, PollStatus::Rejected);
    assert_eq!(gov.polls[0].total_balance_at_end_poll, Some(0));
}

#[test]
fn end_with_zero_snapshot_rejects_for_quorum() {
    let mut gov = setup();
    let id = new_poll(&mut gov, 100, None);
    stake(&mut gov, 5, 1000, 1000);
    gov.set_share(6, 1000);
    // an early vote carries the weight, outside the snapshot window
    gov.cast_vote(1001, 400, 5, id, VoteOption::Yes, 70).unwrap();
    // inside the window the net balance is zero, so a zero-weight vote
    // freezes a zero reference
    gov.cast_vote(1085, 100, 6, id, VoteOption::No, 0).unwrap();
    assert_eq!(gov.polls[0].staked_amount, Some(0));
    // the frozen zero reference forces the quorum to zero
    let resp = gov.end_poll(1100, 9999, id).unwrap();
    assert!(!resp.passed);
    assert_eq!(resp.reason, Some(RejectReason::QuorumNotReached));
    assert_eq!(resp.refund, None);
    assert_eq!(gov.polls[0].total_balance_at_end_poll, Some(0));
}

#[test]
fn end_underflow_when_oracle_below_deposits() {
    let mut gov = setup();
    let id = new_poll(&mut gov, 100, None);
    stake(&mut gov, 5, 1000, 1000);
    // no snapshot was taken and the oracle reports less than the pending
    // deposits: the subtraction is refused, nothing changes
    let r = gov.end_poll(1100, 99, id);
    assert_eq!(r, Err(GovError::Underflow));
    assert_eq!(gov.polls[0].status, PollStatus::InProgress);
    assert_eq!(gov.state.total_deposit, 100);
}

#[test]
fn vote_on_decided_poll_rejected() {
    let mut gov = setup();
    let id = new_poll(&mut gov, 100, None);
    stake(&mut gov, 5, 1000, 1000);
    gov.cast_vote(1001, 400, 5, id, VoteOption::Yes, 70).unwrap();
    gov.end_poll(1100, 300, id).unwrap();
    gov.set_share(6, 1000);
    let r = gov.cast_vote(1100, 400, 6, id, VoteOption::No, 1);
    assert_eq!(r, Err(GovError::PollNotInProgress));
}

#[test]
fn end_with_no_shares_forces_zero_quorum() {
    let mut gov = setup();
    let id = new_poll(&mut gov, 100, None);
    // nothing staked at all: the tally is rejected for quorum
    let resp = gov.end_poll(1100, 300, id).unwrap();
    assert!(!resp.passed);
    assert_eq!(resp.reason, Some(RejectReason::QuorumNotReached));
    assert_eq!(resp.refund, None);
    assert_eq!(gov.polls[0].total_balance_at_end_poll, Some(0));
}

#[test]
fn snapshot_frozen_at_first_touch() {
    let mut gov = setup();
    let id = new_poll(&mut gov, 100, None);
    stake(&mut gov, 5, 1000, 1000);
    gov.set_share(6, 1000);
    // height 1085 is 15 blocks before the end, inside the 20-block window
    gov.cast_vote(1085, 400, 5, id, VoteOption::Yes, 70).unwrap();
    assert_eq!(gov.polls[0].staked_amount, Some(300));
    // a later vote sees a very different oracle balance; the snapshot holds
    gov.cast_vote(1090, 9000, 6, id, VoteOption::Yes, 30).unwrap();
    assert_eq!(gov.polls[0].staked_amount, Some(300));
    // the tally uses the frozen reference: quorum 100/300 = 0.33 < 0.4
    let resp = gov.end_poll(1100, 9999, id).unwrap();
    assert!(!resp.passed);
    assert_eq!(resp.reason, Some(RejectReason::QuorumNotReached));
    assert_eq!(gov.polls[0].total_balance_at_end_poll, Some(300));
}

#[test]
fn vote_outside_snapshot_window_takes_none() {
    let mut gov = setup();
    let id = new_poll(&mut gov, 100, None);
    stake(&mut gov, 5, 1000, 1000);
    // 99 blocks before the end: outside the 20-block window
    gov.cast_vote(1001, 400, 5, id, VoteOption::Yes, 70).unwrap();
    assert_eq!(gov.polls[0].staked_amount, None);
}

fn actions_out_of_order() -> Vec<ExecuteData> {
    vec![
        ExecuteData {
            order: 3,
            contract: 33,
            msg: vec![3, 3],
        },
        ExecuteData {
            order: 1,
            contract: 31,
            msg: vec![1],
        },
        ExecuteData {
            order: 2,
            contract: 32,
            msg: vec![2, 2, 2],
        },
    ]
}

fn pass_poll(gov: &mut Gov, id: u64) {
    stake(gov, 5, 1000, 1000);
    gov.cast_vote(1001, 400, 5, id, VoteOption::Yes, 200).unwrap();
    let resp = gov.end_poll(1100, 300, id).unwrap();
    assert!(resp.passed);
}

#[test]
fn execute_timelock_gates() {
    let mut gov = setup();
    let id = new_poll(&mut gov, 100, Some(actions_out_of_order()));
    pass_poll(&mut gov, id);
    // end height 1100, timelock 10: height 1109 is one block short
    assert_eq!(gov.execute_poll(1109, id), Err(GovError::TimelockNotExpired));
    assert_eq!(gov.polls[0].status, PollStatus::Passed);
    let msgs = gov.execute_poll(1110, id).unwrap();
    assert_eq!(msgs.len(), 3);
    assert_eq!(gov.polls[0].status, PollStatus::Executed);
    assert!(gov.passed.is_empty());
    assert_eq!(gov.executed, vec![id]);
    // a second execution is refused: the poll is no longer passed
    assert_eq!(gov.execute_poll(1200, id), Err(GovError::PollNotPassed));
}

#[test]
fn execute_orders_actions() {
    let mut gov = setup();
    let id = new_poll(&mut gov, 100, Some(actions_out_of_order()));
    pass_poll(&mut gov, id);
    let msgs = gov.execute_poll(1110, id).unwrap();
    let orders: Vec<u64> = msgs.iter().map(|m| m.order).collect();
    assert_eq!(orders, vec![1, 2, 3]);
    let contracts: Vec<u64> = msgs.iter().map(|m| m.contract).collect();
    assert_eq!(contracts, vec![31, 32, 33]);
    assert_eq!(msgs[0].msg, vec![1]);
    assert_eq!(msgs[1].msg, vec![2, 2, 2]);
    assert_eq!(msgs[2].msg, vec![3, 3]);
}

#[test]
fn execute_keeps_tied_actions_in_place() {
    let mut gov = setup();
    // two actions share the ordering key 2; they must keep their relative order
    let actions = vec![
        ExecuteData {
            order: 2,
            contract: 41,
            msg: vec![41],
        },
        ExecuteData {
            order: 1,
            contract: 40,
            msg: vec![40],
        },
        ExecuteData {
            order: 2,
            contract: 42,
            msg: vec![42],
        },
    ];
    let id = new_poll(&mut gov, 100, Some(actions));
    pass_poll(&mut gov, id);
    let msgs = gov.execute_poll(1110, id).unwrap();
    let contracts: Vec<u64> = msgs.iter().map(|m| m.contract).collect();
    assert_eq!(contracts, vec![40, 41, 42]);
}

#[test]
fn execute_without_actions_refused() {
    let mut gov = setup();
    let id = new_poll(&mut gov, 100, None);
    pass_poll(&mut gov, id);
    assert_eq!(gov.execute_poll(1110, id), Err(GovError::NoExecuteData));
    // the refusal leaves the poll passed
    assert_eq!(gov.polls[0].status, PollStatus::Passed);
    assert_eq!(gov.passed, vec![id]);
    // executing a poll that never passed is refused as well
    let id2 = new_poll(&mut gov, 0, None);
    assert_eq!(gov.execute_poll(1110, id2), Err(GovError::PollNotPassed));
}

#[test]
fn register_contracts_only_once() {
    let mut gov = Gov::instantiate(
        OWNER,
        GOV_ADDR,
        Decimal::percent(40),
        Decimal::percent(50),
        100,
        10,
        1000,
        0,
        20,
    );
    gov.register_contracts(TOKEN).unwrap();
    assert_eq!(gov.config.whale_token, Some(TOKEN));
    assert_eq!(gov.register_contracts(99), Err(GovError::Unauthorized));
    assert_eq!(gov.config.whale_token, Some(TOKEN));
}

#[test]
fn receive_hook_flow() {
    let mut gov = setup();
    // only the registered token contract may drive the hook
    let r = gov.receive_cw20(1000, 88, CREATOR, 100, None);
    assert_eq!(r, Err(GovError::Unauthorized));
    // the hook must carry a proposal
    let r = gov.receive_cw20(1000, TOKEN, CREATOR, 100, None);
    assert_eq!(r, Err(GovError::DataShouldBeGiven));
    // a well-formed hook creates the poll for the hook's sender
    let hook = HookMsg::CreatePoll {
        title: "t".to_string(),
        description: "d".to_string(),
        link: None,
        execute_msgs: None,
    };
    let resp = gov.receive_cw20(1000, TOKEN, CREATOR, 100, Some(hook)).unwrap();
    assert_eq!(resp.poll_id, 1);
    assert_eq!(resp.end_height, 1100);
    assert_eq!(gov.polls[0].creator, CREATOR);
    assert_eq!(gov.polls[0].deposit_amount, 100);
}

#[test]
fn execute_routes_intents() {
    let mut gov = Gov::instantiate(
        OWNER,
        GOV_ADDR,
        Decimal::percent(40),
        Decimal::percent(50),
        100,
        10,
        1000,
        0,
        20,
    );
    let r = gov.execute(1000, 0, ExecuteMsg::RegisterContracts { whale_token: TOKEN });
    assert!(matches!(r, Ok(GovResponse::Registered)));
    let hook = HookMsg::CreatePoll {
        title: "t".to_string(),
        description: "d".to_string(),
        link: None,
        execute_msgs: Some(actions_out_of_order()),
    };
    let r = gov
        .execute(
            1000,
            0,
            ExecuteMsg::Receive {
                sender: TOKEN,
                hook_sender: CREATOR,
                amount: 100,
                hook: Some(hook),
            },
        )
        .unwrap();
    match r {
        GovResponse::Created(resp) => assert_eq!(resp.poll_id, 1),
        _ => panic!("expected a created poll"),
    }
    pass_poll(&mut gov, 1);
    let r = gov.execute(1110, 300, ExecuteMsg::ExecutePoll { poll_id: 1 }).unwrap();
    match r {
        GovResponse::Dispatched(msgs) => assert_eq!(msgs.len(), 3),
        _ => panic!("expected dispatched actions"),
    }
}

#[test]
fn end_routes_through_execute() {
    let mut gov = setup();
    let id = new_poll(&mut gov, 100, None);
    stake(&mut gov, 5, 1000, 1000);
    gov.cast_vote(1001, 400, 5, id, VoteOption::Yes, 200).unwrap();
    let r = gov.execute(1100, 300, ExecuteMsg::EndPoll { poll_id: id }).unwrap();
    match r {
        GovResponse::Ended(resp) => assert!(resp.passed),
        _ => panic!("expected an ended poll"),
    }
    let r = gov.execute(1100, 300, ExecuteMsg::EndPoll { poll_id: id });
    assert!(matches!(r, Err(GovError::PollNotInProgress)));
}

#[test]
fn query_count_counts() {
    let mut gov = setup();
    assert_eq!(gov.query_count(), 0);
    assert_eq!(gov.query(QueryMsg::GetCount), CountResponse { count: 0 });
    new_poll(&mut gov, 0, None);
    new_poll(&mut gov, 0, None);
    assert_eq!(gov.query_count(), 2);
    assert_eq!(gov.query(QueryMsg::GetCount), CountResponse { count: 2 });
}

#[test]
fn decimal_from_ratio_exact() {
    // fixed-point, 18 fractional digits, rounded down
    assert_eq!(Decimal::from_ratio(1, 2).atomics, 500_000_000_000_000_000);
    assert_eq!(Decimal::from_ratio(1, 3).atomics, 333_333_333_333_333_333);
    assert_eq!(Decimal::from_ratio(7, 7).atomics, FRACTIONAL);
    assert_eq!(Decimal::percent(40).atomics, 400_000_000_000_000_000);
    assert!(Decimal::from_ratio(1, 3).lt(&Decimal::from_ratio(1, 2)));
    assert!(Decimal::from_ratio(2, 3).gt(&Decimal::percent(50)));
    assert_eq!(Decimal::zero().atomics, 0);
}
