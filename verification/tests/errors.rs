//! Each error kind produced by an input that earns it, and the lookup
//! and overwrite behaviour of the registries.

use vote_ledger::{
    instantiate, query, query_count_vote_results, query_current_proposal, query_proposal_by_id,
    query_voter_count, try_add_proposal, try_cast_vote, try_register_voter, InstantiateMsg,
    Proposal, ProposalRegistry, ProposalVoter, QueryAnswer, QueryMsg, VoteError, VoterRegistry,
};

#[test]
fn zero_choices_rejected() {
    let mut ledger = instantiate(InstantiateMsg {});
    let res = try_add_proposal(&mut ledger, String::from("p"), 0, 1, 2);
    assert_eq!(res, Err(VoteError::InvalidChoiceCount));
    assert_eq!(query_current_proposal(&ledger), Err(VoteError::NoProposal));
}

#[test]
fn empty_ledger_has_no_proposal() {
    let mut ledger = instantiate(InstantiateMsg {});
    assert_eq!(query_current_proposal(&ledger), Err(VoteError::NoProposal));
    assert_eq!(query_voter_count(&ledger), Err(VoteError::NoProposal));
    let res = try_register_voter(
        &mut ledger,
        String::from("p"),
        String::from("e1"),
        String::from("s1"),
        7,
    );
    assert_eq!(res, Err(VoteError::NoProposal));
    let res = try_cast_vote(&mut ledger, String::from("p"), String::from("e1"), String::from("s1"), 0);
    assert_eq!(res, Err(VoteError::NoProposal));
    assert_eq!(
        query_count_vote_results(&ledger, &String::from("p")),
        Err(VoteError::NoProposal)
    );
}

#[test]
fn unregistered_voter_rejected() {
    let mut ledger = instantiate(InstantiateMsg {});
    try_add_proposal(&mut ledger, String::from("p"), 2, 1, 2).unwrap();
    let res = try_cast_vote(&mut ledger, String::from("p"), String::from("e1"), String::from("s1"), 0);
    assert_eq!(res, Err(VoteError::NotRegistered));
}

#[test]
fn wrong_internal_address_rejected() {
    let mut ledger = instantiate(InstantiateMsg {});
    try_add_proposal(&mut ledger, String::from("p"), 2, 1, 2).unwrap();
    try_register_voter(&mut ledger, String::from("p"), String::from("e1"), String::from("s1"), 7)
        .unwrap();
    let res = try_cast_vote(&mut ledger, String::from("p"), String::from("e1"), String::from("sX"), 0);
    assert_eq!(res, Err(VoteError::Unauthorized));
    // The registered address still works afterwards.
    let res = try_cast_vote(&mut ledger, String::from("p"), String::from("e1"), String::from("s1"), 0);
    assert!(res.is_ok());
}

#[test]
fn tally_overflow_rejected() {
    let mut ledger = instantiate(InstantiateMsg {});
    try_add_proposal(&mut ledger, String::from("p"), 2, 1, 2).unwrap();
    try_register_voter(
        &mut ledger,
        String::from("p"),
        String::from("e1"),
        String::from("s1"),
        u128::MAX,
    )
    .unwrap();
    try_register_voter(&mut ledger, String::from("p"), String::from("e2"), String::from("s2"), 1)
        .unwrap();
    try_cast_vote(&mut ledger, String::from("p"), String::from("e1"), String::from("s1"), 0)
        .unwrap();
    let res = try_cast_vote(&mut ledger, String::from("p"), String::from("e2"), String::from("s2"), 0);
    assert_eq!(res, Err(VoteError::Overflow));
    // The refused ballot moved nothing: the voter may still vote elsewhere.
    let res = try_cast_vote(&mut ledger, String::from("p"), String::from("e2"), String::from("s2"), 1);
    assert!(res.is_ok());
    let prop = ledger.proposals().get_by_index(0).unwrap();
    assert_eq!(prop.counters, vec![u128::MAX, 1]);
}

#[test]
fn re_registration_overwrites() {
    let mut ledger = instantiate(InstantiateMsg {});
    try_add_proposal(&mut ledger, String::from("p"), 2, 1, 2).unwrap();
    try_register_voter(&mut ledger, String::from("p"), String::from("e1"), String::from("s1"), 7)
        .unwrap();
    try_register_voter(&mut ledger, String::from("p"), String::from("e1"), String::from("s2"), 9)
        .unwrap();
    let cnt = query_voter_count(&ledger).unwrap();
    assert_eq!(cnt.count, 1);
    let reg = ledger.voter_registry().lookup(0, &String::from("e1")).unwrap();
    assert_eq!(reg.scrt_addr, "s2");
    assert_eq!(reg.power, 9);
    assert!(!reg.has_voted);
}

#[test]
fn registry_positions_and_bounds() {
    let mut registry = ProposalRegistry::new();
    assert_eq!(registry.len(), 0);
    assert!(matches!(registry.current(), Err(VoteError::NoProposal)));
    registry.create(String::from("a"), 2, 1, 2).unwrap();
    registry.create(String::from("b"), 3, 3, 4).unwrap();
    assert_eq!(registry.len(), 2);
    assert_eq!(registry.current().unwrap().id, "b");
    assert_eq!(registry.get_by_index(0).unwrap().id, "a");
    assert!(matches!(registry.get_by_index(2), Err(VoteError::OutOfRange)));
}

#[test]
fn duplicate_identifiers_resolved_by_recency() {
    let mut ledger = instantiate(InstantiateMsg {});
    try_add_proposal(&mut ledger, String::from("p"), 2, 1, 2).unwrap();
    try_add_proposal(&mut ledger, String::from("p"), 5, 3, 4).unwrap();
    let resp = query_proposal_by_id(&ledger, &String::from("p")).unwrap();
    assert_eq!(resp.choice_count, 5);
    assert_eq!(
        query_proposal_by_id(&ledger, &String::from("q")),
        Err(VoteError::NoProposal)
    );
}

#[test]
fn query_dispatch_answers() {
    let mut ledger = instantiate(InstantiateMsg {});
    try_add_proposal(&mut ledger, String::from("p"), 2, 1, 2).unwrap();
    match query(&ledger, QueryMsg::CurrentProposal {}).unwrap() {
        QueryAnswer::Proposal(resp) => {
            assert_eq!(resp.id, "p");
            assert_eq!(resp.choice_count, 2);
        },
        other => panic!("unexpected answer {:?}", other),
    }
    match query(&ledger, QueryMsg::ProposalCount {}).unwrap() {
        QueryAnswer::Count(resp) => assert_eq!(resp.count, 1),
        other => panic!("unexpected answer {:?}", other),
    }
    match query(&ledger, QueryMsg::VoterCount {}).unwrap() {
        QueryAnswer::Count(resp) => assert_eq!(resp.count, 0),
        other => panic!("unexpected answer {:?}", other),
    }
    match query(&ledger, QueryMsg::ProposalById { proposal_id: String::from("p") }).unwrap() {
        QueryAnswer::Proposal(resp) => assert_eq!(resp.choice_count, 2),
        other => panic!("unexpected answer {:?}", other),
    }
}

#[test]
fn constructors_build_plain_records() {
    let v = ProposalVoter::register(String::from("p"), String::from("e"), String::from("s"), 11);
    assert_eq!(v.proposal_id, "p");
    assert_eq!(v.eth_addr, "e");
    assert_eq!(v.scrt_addr, "s");
    assert_eq!(v.power, 11);
    assert!(!v.has_voted);

    let p = Proposal::new(String::from("p"), 3, 5, 6);
    assert_eq!(p.id, "p");
    assert_eq!(p.choice_count, 3);
    assert_eq!(p.start_time, 5);
    assert_eq!(p.end_time, 6);
    assert_eq!(p.counters, vec![0, 0, 0]);
}

#[test]
fn voter_registry_marks_once() {
    let mut reg = VoterRegistry::new();
    reg.push_table();
    reg.register(
        0,
        ProposalVoter::register(String::from("p"), String::from("e"), String::from("s"), 13),
    );
    assert_eq!(reg.count(0), 1);
    let power = reg.mark_voted(0, &String::from("e")).unwrap();
    assert_eq!(power, 13);
    assert_eq!(reg.mark_voted(0, &String::from("e")), Err(VoteError::AlreadyVoted));
    assert_eq!(reg.mark_voted(0, &String::from("x")), Err(VoteError::NotRegistered));
}
