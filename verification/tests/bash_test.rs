use granite::bash::{command_risk, refers_to_parent, CommandPolicy};
use granite::tools::{ToolError, ToolRisk};

fn denied(r: Result<(), ToolError>) -> bool {
    matches!(r, Err(ToolError::Denied(_)))
}

#[test]
fn deny_listed_command_is_denied() {
    let policy = CommandPolicy::new();
    assert!(denied(policy.check("rm -rf /")));
}

#[test]
fn risk_is_mutating_for_plain_command() {
    assert_eq!(command_risk("echo hi"), ToolRisk::Mutating);
}

#[test]
fn risk_is_dangerous_for_destructive_command() {
    assert_eq!(command_risk("sudo rm -r /tmp/whatever"), ToolRisk::Dangerous);
}

#[test]
fn deny_listed_git_force_push_is_denied() {
    let policy = CommandPolicy::new();
    assert!(denied(policy.check("git push --force origin main")));
}

#[test]
fn custom_deny_pattern_is_enforced() {
    let policy = CommandPolicy::new().with_deny_patterns(&[r"\bcargo\s+publish\b"]).unwrap();
    assert!(denied(policy.check("cargo publish")));
}

#[test]
fn allow_pattern_lets_matching_command_pass() {
    let policy = CommandPolicy::new().with_allow_patterns(&[r"^echo\s"]).unwrap();
    assert!(policy.check("echo hi").is_ok());
}

#[test]
fn allow_pattern_denies_non_matching_command() {
    let policy = CommandPolicy::new().with_allow_patterns(&[r"^echo\s"]).unwrap();
    assert!(denied(policy.check("ls -la")));
}

#[test]
fn deny_pattern_wins_even_if_allow_pattern_matches() {
    let policy = CommandPolicy::new().with_allow_patterns(&[r"^git\s"]).unwrap();
    assert!(denied(policy.check("git reset --hard HEAD~1")));
}

#[test]
fn invalid_pattern_regex_is_rejected_at_construction() {
    let err = CommandPolicy::new().with_deny_patterns(&["(unclosed"]);
    assert!(err.is_err());
    assert_eq!(err.unwrap_err().pattern, "(unclosed");
}

#[test]
fn destructive_command_passes_the_policy_gating_is_agent_side() {
    let policy = CommandPolicy::new();
    assert!(policy.check("kill -9 999999").is_ok());
    assert_eq!(command_risk("kill -9 999999"), ToolRisk::Dangerous);
}

#[test]
fn non_destructive_command_passes() {
    assert!(CommandPolicy::new().check("echo hi").is_ok());
}

#[test]
fn sandboxed_command_rejects_path_traversal() {
    let policy = CommandPolicy::new().sandboxed(true);
    assert!(denied(policy.check("cat ../secret")));
    assert!(policy.check("pwd").is_ok());
}

#[test]
fn path_traversal_outside_a_sandbox_passes() {
    assert!(CommandPolicy::new().check("cat ../secret").is_ok());
}

#[test]
fn parent_component_is_found_only_as_a_whole_component() {
    assert!(refers_to_parent("cat ../secret"));
    assert!(refers_to_parent("cd .."));
    assert!(refers_to_parent("ls a/../b"));
    assert!(!refers_to_parent("ls ..foo"));
    assert!(!refers_to_parent("echo a..b"));
    assert!(!refers_to_parent("ls ."));
}

#[test]
fn deny_patterns_are_case_insensitive() {
    let policy = CommandPolicy::new();
    assert!(denied(policy.check("SHUTDOWN now")));
    assert!(denied(policy.check("drop table users")));
}

#[test]
fn denial_names_the_pattern() {
    let policy = CommandPolicy::new().with_deny_patterns(&["forbidden"]).unwrap();
    match policy.check("run forbidden thing") {
        Err(ToolError::Denied(m)) => assert_eq!(m, "command matches deny-list pattern: (?i)forbidden"),
        other => panic!("expected a denial, got {other:?}"),
    }
    match CommandPolicy::new().with_allow_patterns(&["^ok"]).unwrap().check("nope") {
        Err(ToolError::Denied(m)) => assert_eq!(m, "command does not match any allow-list pattern"),
        other => panic!("expected a denial, got {other:?}"),
    }
}

#[test]
fn tool_error_messages() {
    assert_eq!(ToolError::NotFound("x".to_string()).message(), "tool not found: x");
    assert_eq!(ToolError::InvalidArgs("y".to_string()).message(), "invalid arguments: y");
    assert_eq!(ToolError::Io("z".to_string()).message(), "io error: z");
    assert_eq!(ToolError::Denied("w".to_string()).message(), "denied: w");
    assert_eq!(
        ToolError::Timeout(std::time::Duration::from_millis(50)).message(),
        "timed out after 50ms"
    );
}

#[test]
fn denial_names_the_first_matching_pattern() {
    let policy = CommandPolicy::new().with_deny_patterns(&["foo", "fo"]).unwrap();
    match policy.check("foo") {
        Err(ToolError::Denied(m)) => assert_eq!(m, "command matches deny-list pattern: (?i)foo"),
        other => panic!("expected a denial, got {other:?}"),
    }
}
