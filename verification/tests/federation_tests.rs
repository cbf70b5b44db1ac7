use icn_covm::federation::messages::VotingModel;
use icn_covm::identity::identity::Identity;
use icn_covm::federation::{FederatedProposal, FederatedVote, FederationError, FederationStorage};
use std::time::{SystemTime, UNIX_EPOCH};

fn now() -> i64 {
    SystemTime::now().duration_since(UNIX_EPOCH).unwrap().as_secs() as i64
}

fn choices(v: &[f64]) -> Vec<u64> {
    v.iter().map(|x| x.to_bits()).collect()
}

fn proposal() -> FederatedProposal {
    FederatedProposal {
        proposal_id: "test-proposal-1".to_string(),
        namespace: "test".to_string(),
        options: vec!["Option A".to_string(), "Option B".to_string(), "Option C".to_string()],
        creator: "test-node".to_string(),
        created_at: now(),
    }
}

#[test]
fn test_proposal_creation() {
    let proposal = proposal();

    assert_eq!(proposal.proposal_id, "test-proposal-1");
    assert_eq!(proposal.namespace, "test");
    assert_eq!(proposal.options.len(), 3);
    assert_eq!(proposal.creator, "test-node");
}

#[test]
fn test_vote_creation() {
    let vote = FederatedVote {
        proposal_id: "test-proposal-1".to_string(),
        voter: "alice".to_string(),
        ranked_choices: choices(&[2.0, 1.0, 0.0]),
        signature: "test-signature".to_string(),
    };

    assert_eq!(vote.proposal_id, "test-proposal-1");
    assert_eq!(vote.voter, "alice");
    assert_eq!(vote.ranked_choices.len(), 3);
    assert_eq!(f64::from_bits(vote.ranked_choices[0]), 2.0);
    assert_eq!(vote.signature, "test-signature");
}

#[test]
fn test_proposal_storage() {
    let mut federation_storage = FederationStorage::new();
    let proposal = proposal();

    federation_storage.save_proposal(proposal.clone());

    let retrieved_proposal = federation_storage.get_proposal(&proposal.proposal_id).unwrap();

    assert_eq!(retrieved_proposal.proposal_id, proposal.proposal_id);
    assert_eq!(retrieved_proposal.namespace, proposal.namespace);
    assert_eq!(retrieved_proposal.options.len(), proposal.options.len());
    assert_eq!(retrieved_proposal.creator, proposal.creator);
    assert_eq!(retrieved_proposal.created_at, proposal.created_at);
}

#[test]
fn test_saving_again_replaces_the_proposal() {
    let mut store = FederationStorage::new();
    let mut p = proposal();
    store.save_proposal(p.clone());
    p.creator = "other-node".to_string();
    store.save_proposal_with_auth(p.clone(), Ok(())).unwrap();
    assert_eq!(store.get_proposal("test-proposal-1").unwrap().creator, "other-node");
    assert!(store.get_proposal("unknown").is_none());
    assert!(store.get_votes("test-proposal-1").is_none());
}

#[test]
fn test_storage_keys() {
    assert_eq!(FederationStorage::proposal_storage_key("p1"), "federation/proposals/p1");
    assert_eq!(FederationStorage::votes_storage_key("p1"), "federation/votes/p1");
}

#[test]
fn test_federation_error_text() {
    assert_eq!(FederationError::NotFoundError("x".to_string()).to_string(), "Not found: x");
    assert_eq!(FederationError::TimeoutError("5s".to_string()).to_string(), "Timeout: 5s");
    assert_eq!(
        FederationError::from_multiaddr_error("bad").to_string(),
        "Network error: Multiaddr error: bad"
    );
}

#[test]
fn test_vote_storage() {
    let mut federation_storage = FederationStorage::new();

    let vote = FederatedVote {
        proposal_id: "test-proposal-1".to_string(),
        voter: "alice".to_string(),
        ranked_choices: choices(&[2.0, 1.0, 0.0]),
        signature: "test-signature".to_string(),
    };

    federation_storage.save_vote(vote.clone()).unwrap();

    let votes = federation_storage.get_votes(&vote.proposal_id).unwrap();

    assert_eq!(votes.len(), 1);
    assert_eq!(votes[0].proposal_id, vote.proposal_id);
    assert_eq!(votes[0].voter, vote.voter);
    assert_eq!(votes[0].ranked_choices, vote.ranked_choices);
    assert_eq!(votes[0].signature, vote.signature);
}

#[test]
fn test_preparing_ranked_ballots() {
    let federation_storage = FederationStorage::new();
    let vote = |voter: &str, c: &[f64], sig: &str| FederatedVote {
        proposal_id: "test-proposal".to_string(),
        voter: voter.to_string(),
        ranked_choices: choices(c),
        signature: sig.to_string(),
    };
    let votes = vec![
        vote("alice", &[2.0, 1.0, 0.0], "sig1"),
        vote("bob", &[0.0, 1.0, 2.0], "sig2"),
        vote("carol", &[1.0, 2.0, 0.0], "sig3"),
    ];

    let ballots = federation_storage.prepare_ranked_ballots(&votes, 3);

    assert_eq!(ballots.len(), 3);
    assert_eq!(ballots[0], choices(&[2.0, 1.0, 0.0]));
    assert_eq!(ballots[1], choices(&[0.0, 1.0, 2.0]));
    assert_eq!(ballots[2], choices(&[1.0, 2.0, 0.0]));
}

#[test]
fn later_votes_follow_earlier_ones() {
    let mut store = FederationStorage::new();
    for (voter, p) in [("a", "p1"), ("b", "p2"), ("c", "p1")] {
        store.save_vote(FederatedVote {
            proposal_id: p.to_string(),
            voter: voter.to_string(),
            ranked_choices: vec![],
            signature: String::new(),
        })
        .unwrap();
    }
    let p1: Vec<String> = store.get_votes("p1").unwrap().into_iter().map(|v| v.voter).collect();
    assert_eq!(p1, vec!["a".to_string(), "c".to_string()]);
    assert_eq!(store.get_votes("p2").unwrap().len(), 1);
}

#[test]
fn stand_in_signature_check() {
    let store = FederationStorage::new();
    assert!(store.verify_signature("v", "", "valid", "none", &[]));
    assert!(store.verify_signature("v", "m", "s", "ed25519", &[1]));
    assert!(!store.verify_signature("v", "", "s", "secp256k1", &[1]));
    assert!(!store.verify_signature("v", "m", "s", "rsa", &[1]));
}

#[test]
fn test_vote_choice_conversion() {
    let r = icn_covm::cli::federation::vote_choice_to_ranked_choices(
        &icn_covm::governance::proposal_lifecycle::VoteChoice::Yes,
    );
    assert_eq!(r, choices(&[1.0, 0.0]));
    let n = icn_covm::cli::federation::vote_choice_to_ranked_choices(
        &icn_covm::governance::proposal_lifecycle::VoteChoice::No,
    );
    assert_eq!(n, choices(&[0.0, 1.0]));
    let a = icn_covm::cli::federation::vote_choice_to_ranked_choices(
        &icn_covm::governance::proposal_lifecycle::VoteChoice::Abstain,
    );
    assert_eq!(a, choices(&[0.0, 0.0]));
}

#[test]
fn a_second_vote_by_the_same_voter_is_refused() {
    let mut store = FederationStorage::new();
    let vote = |voter: &str, c: &[f64]| FederatedVote {
        proposal_id: "p".to_string(),
        voter: voter.to_string(),
        ranked_choices: choices(c),
        signature: "sig".to_string(),
    };
    store.save_vote(vote("alice", &[2.0, 1.0])).unwrap();
    assert_eq!(
        store.save_vote(vote("alice", &[0.0, 1.0])),
        Err("Voter alice has already voted".to_string())
    );
    let votes = store.get_votes("p").unwrap();
    assert_eq!(votes.len(), 1);
    assert_eq!(votes[0].ranked_choices, choices(&[2.0, 1.0]));
    store.save_vote(vote("bob", &[0.0, 1.0])).unwrap();
    assert_eq!(store.get_votes("p").unwrap().len(), 2);
    let mut other = vote("alice", &[1.0]);
    other.proposal_id = "q".to_string();
    store.save_vote(other).unwrap();
}

#[test]
fn ballots_under_each_voting_model() {
    let store = FederationStorage::new();
    let vote = |voter: &str, c: &[f64]| FederatedVote {
        proposal_id: "p".to_string(),
        voter: voter.to_string(),
        ranked_choices: choices(c),
        signature: "sig".to_string(),
    };
    let votes = vec![
        vote("alice", &[2.0, 1.0]),
        vote("bob", &[0.0, 1.0]),
        vote("carol", &[1.0, 0.0]),
        vote("dave", &[1.0, 1.0]),
    ];
    let mut alice = Identity::new("alice", "member");
    alice.add_metadata("coop_id", "coop1");
    let mut carol = Identity::new("carol", "member");
    carol.add_metadata("coop_id", "coop1");
    let bob = Identity::new("bob", "member");
    let ids = vec![("alice".to_string(), alice), ("bob".to_string(), bob), ("carol".to_string(), carol)];

    let all = store.prepare_ballots_for(&votes, VotingModel::OneMemberOneVote, &ids);
    assert_eq!(all.len(), 4);
    assert_eq!(all[1], choices(&[0.0, 1.0]));

    let per_coop = store.prepare_ballots_for(&votes, VotingModel::OneCoopOneVote, &ids);
    assert_eq!(
        per_coop,
        vec![choices(&[1.0, 0.0]), choices(&[0.0, 1.0]), choices(&[1.0, 1.0])]
    );
}

#[test]
fn a_failed_write_caches_nothing_and_a_miss_reads_storage() {
    let mut store = FederationStorage::new();
    let p = proposal();
    assert_eq!(
        store.save_proposal_with_auth(p.clone(), Err("permission denied".to_string())),
        Err("permission denied".to_string())
    );
    assert!(store.get_proposal(&p.proposal_id).is_none());
    let from_storage = store.get_proposal_or_stored(&p.proposal_id, Some(p.clone())).unwrap();
    assert_eq!(from_storage.creator, p.creator);
    assert!(store.get_proposal_or_stored("unknown", None).is_none());
    let mut newer = p.clone();
    newer.creator = "cached-node".to_string();
    store.save_proposal_with_auth(newer, Ok(())).unwrap();
    assert_eq!(store.get_proposal_or_stored(&p.proposal_id, Some(p.clone())).unwrap().creator, "cached-node");
}
