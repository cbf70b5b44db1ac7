use icn_covm::compiler::parse_dsl::{parse_dsl, parse_duration, DurationUnit, GovDuration};
use icn_covm::compiler::{CompilerError, SourcePosition};

fn pos() -> SourcePosition {
    SourcePosition::new(1, 1)
}

fn hours(n: i64) -> GovDuration {
    GovDuration { amount: n, unit: DurationUnit::Hours }
}

fn days(n: i64) -> GovDuration {
    GovDuration { amount: n, unit: DurationUnit::Days }
}

fn weeks(n: i64) -> GovDuration {
    GovDuration { amount: n, unit: DurationUnit::Weeks }
}

fn fraction(t: &Option<String>) -> Option<f64> {
    t.as_ref().map(|s| s.parse::<f64>().unwrap())
}

#[test]
fn test_parse_duration() {
    assert_eq!(parse_duration("72h", pos()).unwrap(), hours(72));
    assert_eq!(parse_duration("14d", pos()).unwrap(), days(14));
    assert_eq!(parse_duration("2w", pos()).unwrap(), weeks(2));

    assert!(parse_duration("", pos()).is_err());
    assert!(parse_duration("abc", pos()).is_err());
    assert!(parse_duration("72x", pos()).is_err());
}

#[test]
fn test_parse_duration_messages() {
    match parse_duration("abc", pos()) {
        Err(CompilerError::SyntaxError(m, _)) => assert_eq!(m, "Invalid duration value: ab"),
        other => panic!("unexpected {:?}", other),
    }
    match parse_duration("72x", pos()) {
        Err(CompilerError::SyntaxError(m, _)) => assert_eq!(m, "Unknown duration unit: x"),
        other => panic!("unexpected {:?}", other),
    }
    match parse_duration("  ", pos()) {
        Err(CompilerError::SyntaxError(m, _)) => assert_eq!(m, "Empty duration string"),
        other => panic!("unexpected {:?}", other),
    }
    assert_eq!(parse_duration("-3d", pos()).unwrap(), days(-3));
}

#[test]
fn test_parse_governance_block() {
    let source = r#"
governance {
    quorumthreshold 0.6
    votethreshold 0.5
    mindeliberation 72h
    expiresin 14d
    require_role "member"
}

# Regular DSL code
push 10
push 20
add
"#;

    let (ops, config) = parse_dsl(source).unwrap();

    assert_eq!(fraction(&config.quorum), Some(0.6));
    assert_eq!(fraction(&config.threshold), Some(0.5));
    assert_eq!(config.min_deliberation, Some(hours(72)));
    assert_eq!(config.expires_in, Some(days(14)));
    assert_eq!(config.required_roles, vec!["member"]);

    assert_eq!(ops.len(), 3);
}

#[test]
fn test_parse_without_governance_block() {
    let source = r#"
# Regular DSL code
push 10
push 20
add
"#;

    let (ops, config) = parse_dsl(source).unwrap();

    assert_eq!(config.quorum, None);
    assert_eq!(config.threshold, None);
    assert_eq!(config.min_deliberation, None);
    assert_eq!(config.expires_in, None);
    assert_eq!(config.required_roles.len(), 0);

    assert_eq!(ops.len(), 3);
}

#[test]
fn test_parse_governance_template() {
    let source = r#"
template "demo" {
    quorumthreshold 0.75
    votethreshold 0.66
    mindeliberation 48h
    expiresin 5d
    require_role "core"
}

governance use "demo"
push 10
push 20
add
"#;

    let (ops, config) = parse_dsl(source).unwrap();

    assert_eq!(fraction(&config.quorum), Some(0.75));
    assert_eq!(fraction(&config.threshold), Some(0.66));
    assert_eq!(config.min_deliberation, Some(hours(48)));
    assert_eq!(config.expires_in, Some(days(5)));
    assert_eq!(config.required_roles, vec!["core"]);

    assert_eq!(ops.len(), 3);
}

#[test]
fn test_governance_template_with_override() {
    let source = r#"
template "standard" {
    quorumthreshold 0.5
    votethreshold 0.6
    mindeliberation 24h
    expiresin 7d
    require_role "member"
}

governance use "standard"

governance {
    quorumthreshold 0.7
    mindeliberation 48h
}

push 1
push 2
add
"#;

    let (ops, config) = parse_dsl(source).unwrap();

    assert_eq!(fraction(&config.quorum), Some(0.7));
    assert_eq!(fraction(&config.threshold), Some(0.6));
    assert_eq!(config.min_deliberation, Some(hours(48)));
    assert_eq!(config.expires_in, Some(days(7)));
    assert_eq!(config.required_roles, vec!["member"]);

    assert_eq!(ops.len(), 3);
}

#[test]
fn test_multiple_templates() {
    let source = r#"
template "basic" {
    quorumthreshold 0.5
    votethreshold 0.6
}

template "emergency" {
    quorumthreshold 0.3
    votethreshold 0.8
    mindeliberation 1h
    expiresin 1d
    require_role "guardian"
}

governance use "emergency"
push 100
"#;

    let (ops, config) = parse_dsl(source).unwrap();

    assert_eq!(fraction(&config.quorum), Some(0.3));
    assert_eq!(fraction(&config.threshold), Some(0.8));
    assert_eq!(config.min_deliberation, Some(hours(1)));
    assert_eq!(config.expires_in, Some(days(1)));
    assert_eq!(config.required_roles, vec!["guardian"]);

    assert_eq!(ops.len(), 1);
}

#[test]
fn test_unknown_template_is_an_error() {
    let source = "governance use \"missing\"\npush 1\n";
    match parse_dsl(source) {
        Err(CompilerError::SyntaxError(m, p)) => {
            assert_eq!(m, "Unknown template 'missing' at line 1");
            assert_eq!(p.line, 1);
        }
        other => panic!("unexpected {:?}", other.map(|r| r.0)),
    }
}

#[test]
fn test_governance_errors() {
    match parse_dsl("governance {\n    quorumthreshold\n}\n") {
        Err(CompilerError::MissingParameter(c, line, col)) => {
            assert_eq!(c, "quorumthreshold");
            assert_eq!((line, col), (2, 5));
        }
        other => panic!("unexpected {:?}", other.map(|r| r.0)),
    }
    match parse_dsl("governance {\n    votethreshold lots\n}\n") {
        Err(CompilerError::InvalidParameterValue(c, 2, 5)) => assert_eq!(c, "votethreshold"),
        other => panic!("unexpected {:?}", other.map(|r| r.0)),
    }
    match parse_dsl("governance {\n    colour blue\n}\n") {
        Err(CompilerError::UnknownCommand(c, 2, 5)) => assert_eq!(c, "colour"),
        other => panic!("unexpected {:?}", other.map(|r| r.0)),
    }
    match parse_dsl("template {\n") {
        Err(CompilerError::SyntaxError(m, _)) => assert_eq!(m, "Invalid template definition at line 1"),
        other => panic!("unexpected {:?}", other.map(|r| r.0)),
    }
}

#[test]
fn test_merge_keeps_what_is_set() {
    let source = r#"
template "t" {
    quorumthreshold 0.9
    require_role "a"
}
governance {
    quorumthreshold 0.1
    require_role "b"
}
governance use "t"
"#;
    let (_, config) = parse_dsl(source).unwrap();
    assert_eq!(fraction(&config.quorum), Some(0.1));
    assert_eq!(config.required_roles, vec!["b"]);
}
