use icn_covm::api::proposal_api::VoteType;
use icn_covm::api::v1::proposals::{paginate_proposals, storage_vote_type_to_api};
use icn_covm::events::{time_of_day_text, Event, LogFormat};
use icn_covm::cli::proposal::{match_status, parse_duration_string, shorten_did, LocalProposalStatus};

#[test]
fn events_carry_level_tag_and_message() {
    let e = Event::info("emit", "hello");
    assert_eq!(e.level, "info");
    assert_eq!(e.tag, "emit");
    assert_eq!(e.message, "hello");
    assert!(e.data.is_none());
    assert!(!e.timestamp.is_empty());
    assert_eq!(Event::warn("t", "m").level, "warn");
    assert_eq!(Event::error("t", "m").level, "error");
    let d = Event::new("info", "t", "m").with_data(serde_json::Value::Bool(true));
    assert_eq!(d.data, Some(serde_json::Value::Bool(true)));
    assert_ne!(LogFormat::Pretty, LogFormat::Json);
}

#[test]
fn event_lines() {
    let e = Event {
        level: "warn".to_string(),
        tag: "stack".to_string(),
        message: "low".to_string(),
        timestamp: "2024-05-01T12:34:56.789+00:00".to_string(),
        data: None,
    };
    assert_eq!(e.pretty_line(), "\x1b[33m12:34:56 [WARN] [stack] low\x1b[0m");
    assert_eq!(e.plain_line(), "2024-05-01T12:34:56.789+00:00 [WARN] [stack] low");
    let other = Event {
        level: "debug".to_string(),
        tag: "x".to_string(),
        message: "y".to_string(),
        timestamp: "no-time".to_string(),
        data: None,
    };
    assert_eq!(other.pretty_line(), "\x1b[0mno-time [DEBUG] [x] y\x1b[0m");
}

#[test]
fn time_of_day_cases() {
    assert_eq!(time_of_day_text("2024-01-02T03:04:05Z"), "03:04:05Z");
    assert_eq!(time_of_day_text("2024-01-02T03:04:05.5Z"), "03:04:05");
    assert_eq!(time_of_day_text("abc.def"), "abc");
}

#[test]
fn stored_vote_types() {
    assert!(matches!(storage_vote_type_to_api("YES"), Some(VoteType::Yes)));
    assert!(matches!(storage_vote_type_to_api("no"), Some(VoteType::No)));
    assert!(matches!(storage_vote_type_to_api("Abstain"), Some(VoteType::Abstain)));
    assert!(storage_vote_type_to_api("maybe").is_none());
}

#[test]
fn pages_of_a_listing() {
    let items: Vec<u32> = (1..=7).collect();
    let (page, total, n, count) = paginate_proposals(items.clone(), 2, 3);
    assert_eq!(page, vec![4, 5, 6]);
    assert_eq!((total, n, count), (7, 2, 3));
    let (last, _, _, _) = paginate_proposals(items.clone(), 3, 3);
    assert_eq!(last, vec![7]);
    let (first, _, _, _) = paginate_proposals(items.clone(), 0, 3);
    assert_eq!(first, vec![1, 2, 3]);
    let (empty, total0, _, count0) = paginate_proposals(Vec::<u32>::new(), 1, 5);
    assert!(empty.is_empty());
    assert_eq!((total0, count0), (0, 0));
}

#[test]
fn dids_are_shortened() {
    assert_eq!(shorten_did("did:coop:user123"), "user123");
    assert_eq!(shorten_did("did:"), "");
    assert_eq!(shorten_did("alice"), "alice");
    assert_eq!(shorten_did("x:did:y"), "x:did:y");
}

#[test]
fn duration_arguments_in_seconds() {
    assert_eq!(parse_duration_string("7d"), Ok(7 * 86400));
    assert_eq!(parse_duration_string("24h"), Ok(86400));
    assert_eq!(parse_duration_string("30m"), Ok(1800));
    assert_eq!(parse_duration_string("-5s"), Ok(-5));
    assert_eq!(parse_duration_string("xd"), Err("Invalid duration format: xd".to_string()));
    assert_eq!(parse_duration_string("d"), Err("Invalid duration format: d".to_string()));
    assert_eq!(
        parse_duration_string("3w"),
        Err("Invalid duration unit: w. Expected d, h, m, or s".to_string())
    );
}

#[test]
fn vote_types_are_counted() {
    let votes = vec![VoteType::Yes, VoteType::No, VoteType::Yes, VoteType::Abstain, VoteType::Yes];
    assert_eq!(icn_covm::api::proposal_api::count_vote_types(&votes), (3, 1, 1));
    assert_eq!(icn_covm::api::proposal_api::count_vote_types(&[]), (0, 0, 0));
}

#[test]
fn status_filters_match_in_any_case() {
    assert!(match_status(&LocalProposalStatus::Voting, "VOTING"));
    assert!(match_status(&LocalProposalStatus::Draft, "draft"));
    assert!(!match_status(&LocalProposalStatus::Draft, "voting"));
    assert!(!match_status(&LocalProposalStatus::Expired, "gone"));
}

#[test]
fn new_events_are_stamped_in_utc() {
    for e in [Event::info("emit", "a"), Event::warn("vm", "b"), Event::error("vm", "c")] {
        assert!(e.timestamp.chars().count() >= 25);
        assert!(e.timestamp.ends_with("+00:00"));
        assert_eq!(e.timestamp.chars().nth(10), Some('T'));
    }
}
