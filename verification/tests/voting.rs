//! The ledger driven through its caller-facing actions, as a host would.

use vote_ledger::{
    execute, instantiate, query_count_vote_results, query_current_proposal, query_voter_count,
    ExecuteMsg, InstantiateMsg,
};

#[test]
fn cast_vote1() {
    let msg = InstantiateMsg {};
    let mut ledger = instantiate(msg);

    let proposal = ExecuteMsg::SubmitProposal {
        id: String::from("prop1"),
        choice_count: 4u8,
        start_time: 1_000_000_101,
        end_time: 1_000_000_202,
    };
    let res = execute(&mut ledger, proposal);
    assert!(res.is_ok());

    let regvo1 = ExecuteMsg::RegisterVoter {
        proposal_id: String::from("prop1"),
        eth_addr: String::from("0xBEEF"),
        scrt_addr: String::from("secretvoter1"),
        power: 100u128,
    };
    let res = execute(&mut ledger, regvo1);
    assert!(res.is_ok());

    let regvo2 = ExecuteMsg::RegisterVoter {
        proposal_id: String::from("prop1"),
        eth_addr: String::from("0xDEAD"),
        scrt_addr: String::from("secretvoter2"),
        power: 250u128,
    };
    let res = execute(&mut ledger, regvo2);
    assert!(res.is_ok());

    let cnt = query_voter_count(&ledger).unwrap();
    println!("voter cnt {:?}", cnt);

    let cast1 = ExecuteMsg::CastVote {
        proposal_id: String::from("prop1"),
        eth_addr: String::from("0xBEEF"),
        scrt_addr: String::from("secretvoter1"),
        choice: 2,
    };
    let res = execute(&mut ledger, cast1);
    assert!(res.is_ok());

    let cast2 = ExecuteMsg::CastVote {
        proposal_id: String::from("prop1"),
        eth_addr: String::from("0xDEAD"),
        scrt_addr: String::from("secretvoter2"),
        choice: 1,
    };
    let res = execute(&mut ledger, cast2);
    assert!(res.is_ok());

    let winner = query_count_vote_results(&ledger, &String::from("prop1")).unwrap();
    println!("winner should be #1 {:?}", winner);
    assert_eq!(winner.choice, 1);
}

#[test]
fn register_voter1() {
    let msg = InstantiateMsg {};
    let mut ledger = instantiate(msg);

    let proposal = ExecuteMsg::SubmitProposal {
        id: String::from("prop1"),
        choice_count: 4u8,
        start_time: 1_000_000_101,
        end_time: 1_000_000_202,
    };
    let res = execute(&mut ledger, proposal);
    assert!(res.is_ok());

    let regvo1 = ExecuteMsg::RegisterVoter {
        proposal_id: String::from("prop1"),
        eth_addr: String::from("0xBEEF"),
        scrt_addr: String::from("secretvoter1"),
        power: 100u128,
    };
    let res = execute(&mut ledger, regvo1);
    assert!(res.is_ok());

    let regvo2 = ExecuteMsg::RegisterVoter {
        proposal_id: String::from("prop1"),
        eth_addr: String::from("0xDEAD"),
        scrt_addr: String::from("secretvoter2"),
        power: 250u128,
    };
    let res = execute(&mut ledger, regvo2);
    assert!(res.is_ok());

    let cnt = query_voter_count(&ledger).unwrap();
    println!("voter cnt should be 2 {:?}", cnt);
    assert_eq!("2".to_string(), cnt.count.to_string());
}

#[test]
fn add_proposal() {
    let msg = InstantiateMsg {};
    let mut ledger = instantiate(msg);

    let proposal = ExecuteMsg::SubmitProposal {
        id: String::from("prop1"),
        choice_count: 4u8,
        start_time: 1_000_000_101,
        end_time: 1_000_000_202,
    };
    let res = execute(&mut ledger, proposal);
    assert!(res.is_ok());

    let proposal = ExecuteMsg::SubmitProposal {
        id: String::from("prop2"),
        choice_count: 3u8,
        start_time: 1_000_000_101,
        end_time: 1_000_000_202,
    };
    let res = execute(&mut ledger, proposal);
    assert!(res.is_ok());

    let resprop = query_current_proposal(&ledger).unwrap();
    assert_eq!(resprop.id, "prop2".to_string());
    println!("check this prop isn't 1st prop1 {:?}", resprop);
}
