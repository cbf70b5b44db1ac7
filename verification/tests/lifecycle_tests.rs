use icn_covm::governance::proposal_lifecycle::{
    ExecutionMetadata, ExecutionStatus, ProposalLifecycle, ProposalState, VoteChoice, VoteTally,
};
use icn_covm::identity::Identity;

const DAY_MS: i64 = 86_400_000;

fn now_ms() -> i64 {
    chrono::Utc::now().timestamp_millis()
}

fn test_identity(username: &str) -> Identity {
    Identity::new(username.to_string(), None, "test_member".to_string(), None).unwrap()
}

fn create_test_proposal() -> ProposalLifecycle {
    let creator_id = test_identity("test_creator");
    ProposalLifecycle::new(
        "prop-123".to_string(),
        creator_id,
        "Test Proposal".to_string(),
        10,
        5,
        Some(7 * DAY_MS),
        None,
    )
}

#[test]
fn test_proposal_creation_state() {
    let proposal = create_test_proposal();
    assert_eq!(proposal.state, ProposalState::Draft);
    assert_eq!(proposal.current_version, 1);
    assert_eq!(proposal.history.len(), 1);
    assert_eq!(proposal.history[0].1, ProposalState::Draft);
}

#[test]
fn test_open_for_feedback_transition() {
    let mut proposal = create_test_proposal();
    assert_eq!(proposal.state, ProposalState::Draft);

    proposal.open_for_feedback();

    assert_eq!(proposal.state, ProposalState::OpenForFeedback);
    assert_eq!(proposal.history.len(), 2);
    assert_eq!(proposal.history[1].1, ProposalState::OpenForFeedback);
}

#[test]
fn test_start_voting_transition() {
    let mut proposal = create_test_proposal();
    proposal.open_for_feedback();
    assert_eq!(proposal.state, ProposalState::OpenForFeedback);
    assert!(proposal.expires_at.is_none());

    let voting_duration = 3 * DAY_MS;
    let expected_expiry_min = now_ms() + voting_duration - 1000;
    let expected_expiry_max = now_ms() + voting_duration + 1000;

    proposal.start_voting(voting_duration);

    assert_eq!(proposal.state, ProposalState::Voting);
    assert_eq!(proposal.history.len(), 3);
    assert_eq!(proposal.history[2].1, ProposalState::Voting);
    assert!(proposal.expires_at.is_some());
    let expires_at = proposal.expires_at.unwrap();
    assert!(
        expires_at > expected_expiry_min && expires_at < expected_expiry_max,
        "Expiry time not within expected range"
    );
}

#[test]
fn test_invalid_transitions() {
    let mut proposal = create_test_proposal();

    let initial_state = proposal.state.clone();
    let initial_history_len = proposal.history.len();
    proposal.start_voting(DAY_MS);
    assert_eq!(proposal.state, initial_state);
    assert_eq!(proposal.history.len(), initial_history_len);
    assert!(proposal.expires_at.is_none());

    proposal.open_for_feedback();
    proposal.start_voting(DAY_MS);
    assert_eq!(proposal.state, ProposalState::Voting);
    let state_before_invalid = proposal.state.clone();
    let history_len_before_invalid = proposal.history.len();

    proposal.open_for_feedback();

    assert_eq!(proposal.state, state_before_invalid);
    assert_eq!(proposal.history.len(), history_len_before_invalid);
}

#[test]
fn test_retry_execution() {
    let mut proposal = create_test_proposal();

    proposal.state = ProposalState::Executed;
    proposal.execution_status = Some(ExecutionStatus::Failure("First attempt failed".to_string()));

    proposal.execution_metadata = Some(ExecutionMetadata {
        version: 1,
        executed_at: now_ms(),
        success: false,
        summary: "First attempt failed".to_string(),
        retry_count: 0,
        last_retry_at: None,
    });

    assert_eq!(proposal.state, ProposalState::Executed);
    assert!(matches!(proposal.execution_status, Some(ExecutionStatus::Failure(_))));

    let mut non_executed_proposal = create_test_proposal();
    non_executed_proposal.state = ProposalState::Voting;

    let error_message = format!(
        "Cannot retry execution: Proposal {} is not in Executed state",
        non_executed_proposal.id
    );
    assert!(error_message.contains("not in Executed state"));
    assert_eq!(non_executed_proposal.begin_retry().unwrap_err(), error_message);

    let mut successful_proposal = create_test_proposal();
    successful_proposal.state = ProposalState::Executed;
    successful_proposal.execution_status = Some(ExecutionStatus::Success);

    let error_message = format!(
        "Cannot retry execution: Proposal {} already executed successfully",
        successful_proposal.id
    );
    assert!(error_message.contains("already executed successfully"));
    assert_eq!(successful_proposal.begin_retry().unwrap_err(), error_message);

    let before = proposal.history.len();
    assert!(proposal.begin_retry().is_ok());
    assert_eq!(proposal.history.len(), before + 1);
    proposal.finish_retry(ExecutionStatus::Success);
    assert_eq!(proposal.execution_status, Some(ExecutionStatus::Success));
}

fn voting_proposal() -> ProposalLifecycle {
    let mut p = create_test_proposal();
    p.open_for_feedback_at(10);
    p.start_voting_at(20, 100);
    p
}

#[test]
fn test_vote_choice_parsing() {
    assert_eq!(VoteChoice::from_str("YES"), Ok(VoteChoice::Yes));
    assert_eq!(VoteChoice::from_str("no"), Ok(VoteChoice::No));
    assert_eq!(VoteChoice::from_str("Abstain"), Ok(VoteChoice::Abstain));
    let err = VoteChoice::from_str("maybe").unwrap_err();
    assert_eq!(err.to_string(), "Invalid vote choice. Must be 'yes', 'no', or 'abstain'.");
}

#[test]
fn test_tally_counts_only_votes_under_the_prefix() {
    let p = voting_proposal();
    let entries = vec![
        ("proposals/prop-123/votes/alice".to_string(), "yes".to_string()),
        ("proposals/prop-123/votes/bob".to_string(), "No".to_string()),
        ("proposals/prop-123/votes/carol".to_string(), "abstain".to_string()),
        ("proposals/prop-123/votes/dave".to_string(), "perhaps".to_string()),
        ("proposals/prop-123/votes/x/y".to_string(), "yes".to_string()),
        ("proposals/other/votes/erin".to_string(), "yes".to_string()),
    ];
    let t = p.tally_votes(&entries).unwrap();
    assert_eq!(t, VoteTally { yes: 1, no: 1, abstain: 1 });

    let draft = create_test_proposal();
    assert_eq!(draft.tally_votes(&entries).unwrap_err(), "Proposal prop-123 is not in Voting state");
}

#[test]
fn test_check_passed_and_transitions() {
    let p = voting_proposal();
    assert!(p.check_passed(&VoteTally { yes: 6, no: 4, abstain: 9 }));
    assert!(!p.check_passed(&VoteTally { yes: 5, no: 4, abstain: 9 }));
    assert!(!p.check_passed(&VoteTally { yes: 4, no: 8, abstain: 0 }));

    let mut a = voting_proposal();
    assert!(!a.transition_to_rejected_at(&VoteTally { yes: 6, no: 4, abstain: 0 }, 50));
    assert!(a.transition_to_executed_at(&VoteTally { yes: 6, no: 4, abstain: 0 }, 50));
    assert_eq!(a.state, ProposalState::Executed);
    assert_eq!(a.history.last().unwrap(), &(50, ProposalState::Executed));
    a.settle_execution(Err("boom".to_string()));
    assert_eq!(a.execution_status, Some(ExecutionStatus::Failure("boom".to_string())));

    let mut b = voting_proposal();
    assert!(!b.transition_to_executed_at(&VoteTally { yes: 1, no: 1, abstain: 0 }, 50));
    assert!(b.transition_to_rejected_at(&VoteTally { yes: 1, no: 1, abstain: 0 }, 50));
    assert_eq!(b.state, ProposalState::Rejected);
}

#[test]
fn test_expiry() {
    let mut p = voting_proposal();
    assert_eq!(p.expires_at, Some(120));
    assert!(!p.transition_to_expired_at(120));
    assert!(p.transition_to_expired_at(121));
    assert_eq!(p.state, ProposalState::Expired);

    let mut q = voting_proposal();
    q.expire_at(100);
    assert_eq!(q.state, ProposalState::Voting);
    q.expire_at(500);
    assert_eq!(q.state, ProposalState::Expired);
    q.execute_at(600);
    assert_eq!(q.state, ProposalState::Expired);
}

#[test]
fn test_update_version_and_execution_record() {
    let mut p = create_test_proposal();
    p.update_version_at(5);
    assert_eq!(p.current_version, 2);
    assert_eq!(p.history.last().unwrap(), &(5, ProposalState::Draft));

    let v = p.update_execution_status_at(7, false, "it failed", Some(2), Some(4), 99);
    assert_eq!(v, 7);
    assert_eq!(p.execution_status, Some(ExecutionStatus::Failure("it failed".to_string())));
    let md = p.execution_metadata.as_ref().unwrap();
    assert_eq!((md.version, md.executed_at, md.success, md.retry_count, md.last_retry_at), (7, 99, false, 2, Some(4)));
    assert_eq!(md.summary, "it failed");
}

#[test]
fn abstentions_and_extra_votes() {
    let p = voting_proposal();
    let base = VoteTally { yes: 6, no: 4, abstain: 0 };
    assert_eq!(p.check_passed(&base), p.check_passed(&VoteTally { abstain: 100, ..base }));
    assert!(p.check_passed(&VoteTally { yes: 9, no: 12, abstain: 0 }));
    let failing = VoteTally { yes: 5, no: 4, abstain: 0 };
    assert_eq!(p.check_passed(&failing), p.check_passed(&VoteTally { abstain: 7, ..failing }));
}

#[test]
fn vote_choices_parse_through_from_str() {
    assert_eq!("Yes".parse::<VoteChoice>().ok(), Some(VoteChoice::Yes));
    assert_eq!("NO".parse::<VoteChoice>().ok(), Some(VoteChoice::No));
    assert_eq!("abstain".parse::<VoteChoice>().ok(), Some(VoteChoice::Abstain));
    assert!("maybe".parse::<VoteChoice>().is_err());
}

#[test]
fn voting_past_its_deadline_expires_by_the_clock() {
    let mut p = create_test_proposal();
    p.open_for_feedback_at(0);
    p.start_voting_at(1_000, 1_000);
    let before = p.history.len();
    p.expire();
    assert_eq!(p.state, ProposalState::Expired);
    assert_eq!(p.history.len(), before + 1);
    assert_eq!(p.history[before].1, ProposalState::Expired);
    assert!(p.history[before].0 > 2_000);

    let mut q = create_test_proposal();
    q.open_for_feedback_at(0);
    q.start_voting_at(now_ms(), 7 * DAY_MS);
    assert!(!q.transition_to_expired());
    assert_eq!(q.state, ProposalState::Voting);

    let mut r = create_test_proposal();
    r.open_for_feedback_at(0);
    r.start_voting_at(1_000, 1_000);
    assert!(r.transition_to_expired());
    assert_eq!(r.state, ProposalState::Expired);
}
