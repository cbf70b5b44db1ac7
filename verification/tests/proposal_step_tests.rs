use icn_covm::cli::proposal::LocalProposalStatus;
use icn_covm::cli::proposal_step::{
    check_edit, creation_keys, creation_title, deliberation_millis, edited_part_key, record_edit,
    transition_step, vote_decision, ProposalRecord, Transition,
};
use icn_covm::governance::proposal_lifecycle::{ProposalLifecycle, ProposalState};
use icn_covm::identity::Identity;

const HOUR: i64 = 3_600_000;

fn record(status: LocalProposalStatus) -> ProposalRecord {
    ProposalRecord {
        id: "p1".to_string(),
        creator: "did:alice".to_string(),
        status,
        created_at: 0,
        expires_at: None,
        logic_path: Some("logic.dsl".to_string()),
        discussion_path: None,
        votes_path: None,
        attachments: vec![],
        execution_result: None,
        deliberation_started_at: None,
        min_deliberation_hours: None,
    }
}

fn saved(r: Result<Transition, String>) -> ProposalRecord {
    match r {
        Ok(Transition::Save(p)) => p,
        _ => panic!("expected a proposal to store"),
    }
}

fn refused(r: Result<Transition, String>) -> String {
    match r {
        Err(e) => e,
        _ => panic!("expected a refusal"),
    }
}

#[test]
fn only_the_creator_or_an_admin_transitions() {
    let r = transition_step(record(LocalProposalStatus::Draft), "p1", "did:bob", false, "deliberation", None, false, 0);
    assert_eq!(refused(r), "User did:bob does not have permission to transition proposal p1");
    let p = saved(transition_step(record(LocalProposalStatus::Draft), "p1", "did:bob", true, "Deliberation", None, false, 5));
    assert_eq!(p.status, LocalProposalStatus::Deliberation);
    assert_eq!(p.deliberation_started_at, Some(5));
}

#[test]
fn guards_give_way_to_force() {
    let r = transition_step(record(LocalProposalStatus::Active), "p1", "did:alice", false, "deliberation", None, false, 0);
    assert_eq!(refused(r), "Cannot transition proposal from Active to Deliberation without --force flag");
    let p = saved(transition_step(record(LocalProposalStatus::Active), "p1", "did:alice", false, "deliberation", None, true, 0));
    assert_eq!(p.status, LocalProposalStatus::Deliberation);
    let r = transition_step(record(LocalProposalStatus::Draft), "p1", "did:alice", false, "voting", None, false, 0);
    assert_eq!(refused(r), "Cannot transition proposal from Draft to Voting without --force flag");
    let r = transition_step(record(LocalProposalStatus::Draft), "p1", "did:alice", false, "rejected", None, false, 0);
    assert_eq!(refused(r), "Cannot reject proposal from Draft state. Must be in Voting state or use --force flag.");
    let r = transition_step(record(LocalProposalStatus::Draft), "p1", "did:alice", false, "archived", None, false, 0);
    assert_eq!(refused(r), "Invalid status: archived");
    let p = saved(transition_step(record(LocalProposalStatus::Draft), "p1", "did:alice", false, "expired", None, false, 0));
    assert_eq!(p.status, LocalProposalStatus::Expired);
}

#[test]
fn deliberation_must_last_its_minimum() {
    let mut d = record(LocalProposalStatus::Deliberation);
    assert_eq!(
        refused(transition_step(d.clone(), "p1", "did:alice", false, "active", None, false, 0)),
        "Missing deliberation start timestamp"
    );
    d.deliberation_started_at = Some(0);
    assert_eq!(
        refused(transition_step(d.clone(), "p1", "did:alice", false, "active", None, false, 23 * HOUR + 1)),
        "Deliberation phase must last at least 24 hours (elapsed: 23). Use --force to override."
    );
    let p = saved(transition_step(d.clone(), "p1", "did:alice", false, "active", None, false, 24 * HOUR));
    assert_eq!(p.status, LocalProposalStatus::Active);
    d.min_deliberation_hours = Some(2);
    let p = saved(transition_step(d.clone(), "p1", "did:alice", false, "active", None, false, 2 * HOUR));
    assert_eq!(p.status, LocalProposalStatus::Active);
    let p = saved(transition_step(d, "p1", "did:alice", false, "active", None, true, 0));
    assert_eq!(p.status, LocalProposalStatus::Active);
}

#[test]
fn execution_records_a_result_or_runs_the_logic() {
    let p = saved(transition_step(
        record(LocalProposalStatus::Voting),
        "p1",
        "did:alice",
        false,
        "executed",
        Some("done".to_string()),
        false,
        0,
    ));
    assert_eq!(p.status, LocalProposalStatus::Executed);
    assert_eq!(p.execution_result, Some("done".to_string()));
    match transition_step(record(LocalProposalStatus::Voting), "p1", "did:alice", false, "executed", None, false, 0) {
        Ok(Transition::RunLogic(q, path)) => {
            assert_eq!(q.status, LocalProposalStatus::Voting);
            assert_eq!(path, "logic.dsl");
            let q = q.mark_executed("ran".to_string());
            assert_eq!(q.status, LocalProposalStatus::Executed);
            assert_eq!(q.execution_result, Some("ran".to_string()));
        }
        _ => panic!("expected the logic to run"),
    }
    let mut no_logic = record(LocalProposalStatus::Voting);
    no_logic.logic_path = None;
    let p = saved(transition_step(no_logic, "p1", "did:alice", false, "executed", None, false, 0));
    assert_eq!(p.execution_result, Some("No logic path defined for proposal.".to_string()));
    let r = transition_step(record(LocalProposalStatus::Active), "p1", "did:alice", false, "executed", None, false, 0);
    assert_eq!(refused(r), "Cannot execute proposal from Active state. Must be in Voting state or use --force flag.");
}

fn lifecycle(creator: &str, discussion: Option<i64>) -> ProposalLifecycle {
    let id = Identity::new(creator.to_string(), None, "member".to_string(), None).unwrap();
    ProposalLifecycle::new_at("p1".to_string(), id, "T".to_string(), 1, 1, discussion, None, 0)
}

#[test]
fn edits_by_the_creator_of_an_open_proposal() {
    let p = lifecycle("alice", None);
    let did = p.creator.did.clone();
    assert!(check_edit(&p, "p1", &did).is_ok());
    assert_eq!(
        check_edit(&p, "p1", "did:mallory"),
        Err("User did:mallory does not have permission to edit proposal p1".to_string())
    );
    let mut q = p.clone();
    q.state = ProposalState::Voting;
    assert_eq!(
        check_edit(&q, "p1", &did),
        Err("Proposal p1 cannot be edited in its current state: Voting".to_string())
    );
    let mut e = p.clone();
    let n = e.history.len();
    record_edit(&mut e, 7);
    assert_eq!(e.current_version, p.current_version + 1);
    assert_eq!(e.history.len(), n + 2);
    assert_eq!(e.history[n], (7, ProposalState::Draft));
    assert_eq!(edited_part_key("p1", "body"), "governance/proposals/p1/attachments/body");
}

#[test]
fn votes_wait_for_deliberation_and_a_valid_choice() {
    let l = lifecycle("alice", Some(48 * HOUR));
    assert_eq!(
        vote_decision(&l, "p1", "yes", "did:bob", None, 5 * HOUR).err(),
        Some("\u{23f3} Proposal 'p1' is still in deliberation.\n   Required: 48 hours\n   Elapsed: 5 hours".to_string())
    );
    assert_eq!(
        vote_decision(&l, "p1", "maybe", "did:bob", None, 48 * HOUR).err(),
        Some("Invalid vote choice: 'maybe'. Must be yes, no, or abstain".to_string())
    );
    let v = vote_decision(&l, "p1", "YES", "did:bob", Some("did:carol"), 48 * HOUR).ok().unwrap();
    assert_eq!(v.vote, "yes");
    assert_eq!(v.voter, "did:carol");
    assert_eq!(v.delegated_by, Some("did:carol".to_string()));
    assert_eq!(v.key, "governance_proposals/p1/votes/did:bob");
}

#[test]
fn creation_title_keys_and_deliberation() {
    assert_eq!(creation_title("p9", None), "Proposal p9");
    assert_eq!(creation_title("p9", Some("T".to_string())), "T");
    assert_eq!(
        creation_keys("p9", true, false, true),
        vec!["proposals/p9/lifecycle", "proposals/p9/attachments/logic", "proposals/p9/required_roles"]
    );
    assert_eq!(deliberation_millis(2), Some(7_200_000));
    assert_eq!(deliberation_millis(i64::MAX / 1000), None);
}
