//! The stated properties of the ledger on concrete values: tie-breaks,
//! choice bounds, exactly-once voting, tally additivity, and the
//! end-to-end scenario.

use vote_ledger::{
    execute, instantiate, query, query_count_vote_results, query_voter_count, try_add_proposal,
    try_cast_vote, try_register_voter, winner, ExecuteMsg, InstantiateMsg, QueryAnswer, QueryMsg,
    VoteError,
};

fn ledger_with_proposal(id: &str, choice_count: u8) -> vote_ledger::Ledger {
    let mut ledger = instantiate(InstantiateMsg {});
    let res = try_add_proposal(
        &mut ledger,
        String::from(id),
        choice_count,
        1_000_000_101,
        1_000_000_202,
    );
    assert!(res.is_ok());
    ledger
}

fn register(ledger: &mut vote_ledger::Ledger, eth: &str, scrt: &str, power: u128) {
    let res = try_register_voter(
        ledger,
        String::from("p"),
        String::from(eth),
        String::from(scrt),
        power,
    );
    assert!(res.is_ok());
}

#[test]
fn winner_tie_break_lowest_index() {
    let counters: Vec<u128> = vec![5, 5, 3];
    assert_eq!(winner(&counters), (0, 5));
}

#[test]
fn winner_all_zero() {
    let counters: Vec<u128> = vec![0, 0, 0];
    assert_eq!(winner(&counters), (0, 0));
}

#[test]
fn winner_single_counter() {
    let counters: Vec<u128> = vec![7];
    assert_eq!(winner(&counters), (0, 7));
}

#[test]
fn winner_later_maximum() {
    let counters: Vec<u128> = vec![1, 2, 9, 9];
    assert_eq!(winner(&counters), (2, 9));
}

#[test]
fn choice_out_of_bounds_is_invalid_choice() {
    let mut ledger = ledger_with_proposal("p", 4);
    register(&mut ledger, "e1", "s1", 10);
    for choice in [4u8, 5u8, 255u8] {
        let res = try_cast_vote(
            &mut ledger,
            String::from("p"),
            String::from("e1"),
            String::from("s1"),
            choice,
        );
        assert_eq!(res, Err(VoteError::InvalidChoice));
    }
    // The smallest proposal has one choice; only index zero is valid.
    let mut one = ledger_with_proposal("q", 1);
    register(&mut one, "e1", "s1", 10);
    let res = try_cast_vote(&mut one, String::from("q"), String::from("e1"), String::from("s1"), 1);
    assert_eq!(res, Err(VoteError::InvalidChoice));
    let res = try_cast_vote(&mut one, String::from("q"), String::from("e1"), String::from("s1"), 0);
    assert!(res.is_ok());
}

#[test]
fn exactly_once_vote() {
    let mut ledger = ledger_with_proposal("p", 3);
    register(&mut ledger, "e1", "s1", 42);
    let res = try_cast_vote(&mut ledger, String::from("p"), String::from("e1"), String::from("s1"), 2);
    assert!(res.is_ok());
    let prop = ledger.proposals().get_by_index(0).unwrap();
    assert_eq!(prop.counters, vec![0, 0, 42]);
    // Any further ballot of the same voter is refused and moves nothing.
    for choice in [2u8, 0u8] {
        let res = try_cast_vote(
            &mut ledger,
            String::from("p"),
            String::from("e1"),
            String::from("s1"),
            choice,
        );
        assert_eq!(res, Err(VoteError::AlreadyVoted));
    }
    let prop = ledger.proposals().get_by_index(0).unwrap();
    assert_eq!(prop.counters, vec![0, 0, 42]);
}

#[test]
fn tally_adds_power_per_choice() {
    let mut ledger = ledger_with_proposal("p", 3);
    register(&mut ledger, "e1", "s1", 100);
    register(&mut ledger, "e2", "s2", 250);
    register(&mut ledger, "e3", "s3", 5);
    for (eth, scrt, choice) in [("e1", "s1", 1u8), ("e2", "s2", 1u8), ("e3", "s3", 0u8)] {
        let res = try_cast_vote(
            &mut ledger,
            String::from("p"),
            String::from(eth),
            String::from(scrt),
            choice,
        );
        assert!(res.is_ok());
    }
    let prop = ledger.proposals().get_by_index(0).unwrap();
    assert_eq!(prop.counters, vec![5, 350, 0]);
}

#[test]
fn end_to_end_scenario() {
    let mut ledger = instantiate(InstantiateMsg {});
    let res = execute(
        &mut ledger,
        ExecuteMsg::SubmitProposal {
            id: String::from("p1"),
            choice_count: 4,
            start_time: 1_000_000_101,
            end_time: 1_000_000_202,
        },
    );
    assert!(res.is_ok());
    let res = execute(
        &mut ledger,
        ExecuteMsg::RegisterVoter {
            proposal_id: String::from("p1"),
            eth_addr: String::from("E1"),
            scrt_addr: String::from("s1"),
            power: 100,
        },
    );
    assert!(res.is_ok());
    let res = execute(
        &mut ledger,
        ExecuteMsg::RegisterVoter {
            proposal_id: String::from("p1"),
            eth_addr: String::from("E2"),
            scrt_addr: String::from("s2"),
            power: 250,
        },
    );
    assert!(res.is_ok());
    let res = execute(
        &mut ledger,
        ExecuteMsg::CastVote {
            proposal_id: String::from("p1"),
            eth_addr: String::from("E1"),
            scrt_addr: String::from("s1"),
            choice: 2,
        },
    );
    assert!(res.is_ok());
    let res = execute(
        &mut ledger,
        ExecuteMsg::CastVote {
            proposal_id: String::from("p1"),
            eth_addr: String::from("E2"),
            scrt_addr: String::from("s2"),
            choice: 1,
        },
    );
    assert!(res.is_ok());

    let won = query_count_vote_results(&ledger, &String::from("p1")).unwrap();
    assert_eq!((won.choice, won.choice_count), (1, 250));

    let repeat = execute(
        &mut ledger,
        ExecuteMsg::CastVote {
            proposal_id: String::from("p1"),
            eth_addr: String::from("E1"),
            scrt_addr: String::from("s1"),
            choice: 3,
        },
    );
    assert_eq!(repeat, Err(VoteError::AlreadyVoted));

    let cnt = query_voter_count(&ledger).unwrap();
    assert_eq!(cnt.count, 2);

    match query(&ledger, QueryMsg::WhoWon { proposal_id: String::from("p1") }).unwrap() {
        QueryAnswer::Winner(resp) => {
            assert_eq!(resp.choice, 1);
            assert_eq!(resp.choice_count, 250);
        },
        other => panic!("unexpected answer {:?}", other),
    }
}
