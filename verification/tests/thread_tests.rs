use icn_covm::api::proposal_api::{last_activity, top_participants};
use icn_covm::cli::thread::thread_order;
use icn_covm::governance::comments::ProposalComment;

fn comment(id: &str, reply_to: Option<&str>, at: i64) -> ProposalComment {
    let mut c = ProposalComment::new_at(
        "did:coop:alice".to_string(),
        format!("text of {}", id),
        reply_to.map(|r| r.to_string()),
        vec![],
        at,
    );
    c.id = id.to_string();
    c
}

#[test]
fn threads_show_roots_then_replies_oldest_first() {
    let comments = vec![
        comment("b", None, 20),
        comment("a", None, 10),
        comment("b2", Some("b"), 40),
        comment("b1", Some("b"), 30),
        comment("b1x", Some("b1"), 50),
        comment("a1", Some("a"), 60),
        comment("orphan", Some("missing"), 5),
    ];
    let order = thread_order(&comments);
    assert_eq!(order, vec![(1, 0), (5, 1), (0, 0), (3, 1), (4, 2), (2, 1)]);
}

#[test]
fn equal_times_keep_list_order() {
    let comments = vec![comment("x", None, 7), comment("y", None, 7), comment("z", None, 3)];
    assert_eq!(thread_order(&comments), vec![(2, 0), (0, 0), (1, 0)]);
}

#[test]
fn no_comments_no_threads() {
    assert!(thread_order(&vec![]).is_empty());
}

fn by(author: &str, at: i64) -> ProposalComment {
    ProposalComment::new_at(author.to_string(), "c".to_string(), None, vec![], at)
}

#[test]
fn most_active_participants_first() {
    let comments = vec![
        by("carol", 1),
        by("alice", 2),
        by("bob", 3),
        by("alice", 4),
        by("bob", 5),
        by("alice", 6),
        by("dave", 7),
        by("erin", 8),
        by("frank", 9),
    ];
    let top = top_participants(&comments);
    assert_eq!(
        top,
        vec![
            ("alice".to_string(), 3),
            ("bob".to_string(), 2),
            ("carol".to_string(), 1),
            ("dave".to_string(), 1),
            ("erin".to_string(), 1),
        ]
    );
    assert!(top_participants(&vec![]).is_empty());
}

#[test]
fn last_activity_is_the_latest_comment() {
    assert_eq!(last_activity(&vec![by("a", 5), by("b", 9), by("c", 7)], 1), 9);
    assert_eq!(last_activity(&vec![], 42), 42);
}

#[test]
fn new_comment_ids_are_hyphenated_v4_uuids() {
    let a = ProposalComment::new("alice".to_string(), "hi".to_string(), None, vec![]);
    let b = ProposalComment::new("alice".to_string(), "hi".to_string(), None, vec![]);
    for id in [&a.id, &b.id] {
        let chars: Vec<char> = id.chars().collect();
        assert_eq!(chars.len(), 36);
        for (i, c) in chars.iter().enumerate() {
            if i == 8 || i == 13 || i == 18 || i == 23 {
                assert_eq!(*c, '-');
            } else {
                assert!(c.is_ascii_hexdigit() && !c.is_ascii_uppercase());
            }
        }
        assert_eq!(chars[14], '4');
    }
    assert_ne!(a.id, b.id);
}
