use icn_covm::compiler::macros::{
    attachment_key, duration_millis, lifecycle_key, lifecycle_ops, escape_for_dsl, lifecycle_settings, macro_expand, parse_duration, parse_proposal_block,
    sanitize_attachment_name, store_line, store_line_in, MacroDuration, TimeUnit,
};

use icn_covm::Op;

fn lines(v: &[&str]) -> Vec<String> {
    v.iter().map(|s| s.to_string()).collect()
}

#[test]
fn proposal_block_collects_properties_attachments_and_logic() {
    let block = lines(&[
        "title \"Fund the garden\"",
        "quorum 10",
        "# a comment",
        "",
        "threshold 6",
        "attachment budget \"docs/budget.md\"",
        "execution {",
        "    push 1",
        "    emit \"done\"",
        "}",
    ]);
    let (props, atts, dsl) = parse_proposal_block(&block).unwrap();
    assert_eq!(props.get("title").map(|s| s.as_str()), Some("Fund the garden"));
    assert_eq!(props.get("quorum").map(|s| s.as_str()), Some("10"));
    assert_eq!(props.get("threshold").map(|s| s.as_str()), Some("6"));
    assert_eq!(props.len(), 3);
    assert_eq!(atts.get("budget").map(|s| s.as_str()), Some("docs/budget.md"));
    assert_eq!(atts.len(), 1);
    assert_eq!(dsl, "push 1\nemit \"done\"");
}

#[test]
fn proposal_block_errors() {
    assert_eq!(
        parse_proposal_block(&lines(&["execution {", "execution {"])).err(),
        Some("Nested execution blocks are not allowed.".to_string())
    );
    assert_eq!(
        parse_proposal_block(&lines(&["}"])).err(),
        Some("Unexpected closing brace '}'.".to_string())
    );
    assert_eq!(
        parse_proposal_block(&lines(&["execution {", "push 1"])).err(),
        Some("Unclosed execution block.".to_string())
    );
    assert_eq!(
        parse_proposal_block(&lines(&["title"])).err(),
        Some("Invalid line in proposal block: title".to_string())
    );
    assert_eq!(
        parse_proposal_block(&lines(&["colour blue"])).err(),
        Some("Unknown property in proposal block: colour".to_string())
    );
    assert_eq!(
        parse_proposal_block(&lines(&["attachment single"])).err(),
        Some("Invalid attachment format: attachment single".to_string())
    );
    assert_eq!(
        parse_proposal_block(&lines(&["attachment LoGiC file.txt"])).err(),
        Some(
            "Cannot use 'logic' as a name for file attachment; it's reserved for the execution block."
                .to_string()
        )
    );
}

#[test]
fn proposal_block_last_property_wins() {
    let (props, _, dsl) = parse_proposal_block(&lines(&["title a", "title b"])).unwrap();
    assert_eq!(props.get("title").map(|s| s.as_str()), Some("b"));
    assert_eq!(dsl, "");
}

#[test]
fn macro_duration_units() {
    assert_eq!(parse_duration("2d"), Some(MacroDuration { amount: 2, unit: TimeUnit::Days }));
    assert_eq!(parse_duration(" 3h "), Some(MacroDuration { amount: 3, unit: TimeUnit::Hours }));
    assert_eq!(parse_duration("30m"), Some(MacroDuration { amount: 30, unit: TimeUnit::Minutes }));
    assert_eq!(parse_duration("-1dd"), Some(MacroDuration { amount: -1, unit: TimeUnit::Days }));
    assert_eq!(parse_duration("5w"), None);
    assert_eq!(parse_duration("xd"), None);
    assert_eq!(parse_duration(""), None);
}

#[test]
fn settings_from_properties() {
    let (props, _, _) = parse_proposal_block(&lines(&[
        "title T",
        "quorum 3",
        "threshold 2",
        "discussion_duration 2d",
    ]))
    .unwrap();
    let s = lifecycle_settings(&props).unwrap();
    assert_eq!(s.title, "T");
    assert_eq!(s.quorum, 3);
    assert_eq!(s.threshold, 2);
    assert_eq!(s.discussion_duration, Some(MacroDuration { amount: 2, unit: TimeUnit::Days }));
    assert_eq!(s.author, "macro_creator");
}

#[test]
fn settings_errors_in_order() {
    let (p1, _, _) = parse_proposal_block(&lines(&["quorum 3"])).unwrap();
    assert_eq!(lifecycle_settings(&p1).err(), Some("Missing 'title' property".to_string()));
    let (p2, _, _) = parse_proposal_block(&lines(&["title T"])).unwrap();
    assert_eq!(lifecycle_settings(&p2).err(), Some("Missing 'quorum' property".to_string()));
    let (p3, _, _) = parse_proposal_block(&lines(&["title T", "quorum 1"])).unwrap();
    assert_eq!(lifecycle_settings(&p3).err(), Some("Missing 'threshold' property".to_string()));
    let (p4, _, _) = parse_proposal_block(&lines(&["title T", "quorum x", "threshold 1"])).unwrap();
    assert_eq!(lifecycle_settings(&p4).err(), Some("Invalid quorum value: x".to_string()));
    let (p5, _, _) = parse_proposal_block(&lines(&["title T", "quorum 1", "threshold -1"])).unwrap();
    assert_eq!(lifecycle_settings(&p5).err(), Some("Invalid threshold value: -1".to_string()));
}

#[test]
fn escaping_and_store_lines() {
    assert_eq!(escape_for_dsl("a\"b\\c"), "a\\\"b\\\\c");
    assert_eq!(store_line("k", "say \"hi\""), "StoreP \"k\" \"say \\\"hi\\\"\"");
    assert_eq!(store_line_in("governance", "p/1", "x"), "StoreP \"governance\"/\"p/1\" \"x\"");
}

#[test]
fn attachment_names_are_sanitized() {
    assert_eq!(sanitize_attachment_name("my file.md"), "my_file_md");
    assert_eq!(sanitize_attachment_name("a-b_c9"), "a-b_c9");
}

#[test]
fn macro_expand_dispatch() {
    assert_eq!(macro_expand("other", &lines(&[])).err(), Some("Unknown macro: other".to_string()));
    let (props, _, _) = macro_expand("proposal_lifecycle", &lines(&["title X"])).unwrap();
    assert_eq!(props.get("title").map(|s| s.as_str()), Some("X"));
}

#[test]
fn lifecycle_durations_keys_and_operations() {
    assert_eq!(duration_millis(MacroDuration { amount: 3, unit: TimeUnit::Hours }), Some(10_800_000));
    assert_eq!(duration_millis(MacroDuration { amount: 2, unit: TimeUnit::Days }), Some(172_800_000));
    assert_eq!(duration_millis(MacroDuration { amount: i64::MAX / 1000, unit: TimeUnit::Minutes }), None);
    assert_eq!(lifecycle_key("42"), "governance/proposals/42/lifecycle");
    assert_eq!(attachment_key("42", "my file.md"), "proposals/42/attachments/my_file_md");
    let ops = lifecycle_ops(
        "42",
        "T",
        vec![Op::Pop],
        vec![("a.md".to_string(), "/tmp/a.md".to_string(), vec![Op::Dup])],
        Some(vec![Op::Swap]),
    );
    assert_eq!(
        ops,
        vec![
            Op::Emit("Creating proposal 42...".to_string()),
            Op::Pop,
            Op::Dup,
            Op::Emit("Stored attachment 'a.md' from /tmp/a.md".to_string()),
            Op::Swap,
            Op::EmitEvent {
                category: "governance".to_string(),
                message: "Stored execution logic for proposal 42".to_string(),
            },
            Op::EmitEvent { category: "governance".to_string(), message: "Proposal 42 ('T') created.".to_string() },
        ]
    );
}
