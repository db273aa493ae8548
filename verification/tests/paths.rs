use agent_permissions::{
    CompiledRegex, ShellKind, ToolPermissionDecision, ToolPermissionMode, ToolPermissions,
    ToolRules, decide_permission_for_path, most_restrictive, normalize_path,
};

const EDIT_FILE: &str = "edit_file";

#[test]
fn normalize_path_relative_no_change() {
    assert_eq!(normalize_path("foo/bar"), "foo/bar");
}

#[test]
fn normalize_path_relative_with_curdir() {
    assert_eq!(normalize_path("foo/./bar"), "foo/bar");
}

#[test]
fn normalize_path_relative_with_parent() {
    assert_eq!(normalize_path("foo/bar/../baz"), "foo/baz");
}

#[test]
fn normalize_path_absolute_preserved() {
    assert_eq!(normalize_path("/etc/passwd"), "/etc/passwd");
}

#[test]
fn normalize_path_absolute_with_traversal() {
    assert_eq!(normalize_path("/tmp/../etc/passwd"), "/etc/passwd");
}

#[test]
fn normalize_path_root() {
    assert_eq!(normalize_path("/"), "/");
}

#[test]
fn normalize_path_parent_beyond_root_clamped() {
    assert_eq!(normalize_path("/../../../etc/passwd"), "/etc/passwd");
}

#[test]
fn normalize_path_curdir_only() {
    assert_eq!(normalize_path("."), "");
}

#[test]
fn normalize_path_empty() {
    assert_eq!(normalize_path(""), "");
}

#[test]
fn normalize_path_relative_traversal_above_start() {
    assert_eq!(normalize_path("../../../etc/passwd"), "../../../etc/passwd");
}

#[test]
fn normalize_path_relative_traversal_with_curdir() {
    assert_eq!(normalize_path("../../."), "../..");
}

#[test]
fn normalize_path_relative_partial_traversal_above_start() {
    assert_eq!(normalize_path("foo/../../bar"), "../bar");
}

#[test]
fn most_restrictive_deny_vs_allow() {
    assert!(matches!(
        most_restrictive(
            ToolPermissionDecision::Deny("x".into()),
            ToolPermissionDecision::Allow
        ),
        ToolPermissionDecision::Deny(_)
    ));
}

#[test]
fn most_restrictive_allow_vs_deny() {
    assert!(matches!(
        most_restrictive(
            ToolPermissionDecision::Allow,
            ToolPermissionDecision::Deny("x".into())
        ),
        ToolPermissionDecision::Deny(_)
    ));
}

#[test]
fn most_restrictive_deny_vs_confirm() {
    assert!(matches!(
        most_restrictive(
            ToolPermissionDecision::Deny("x".into()),
            ToolPermissionDecision::Confirm
        ),
        ToolPermissionDecision::Deny(_)
    ));
}

#[test]
fn most_restrictive_confirm_vs_deny() {
    assert!(matches!(
        most_restrictive(
            ToolPermissionDecision::Confirm,
            ToolPermissionDecision::Deny("x".into())
        ),
        ToolPermissionDecision::Deny(_)
    ));
}

#[test]
fn most_restrictive_deny_vs_deny() {
    assert!(matches!(
        most_restrictive(
            ToolPermissionDecision::Deny("a".into()),
            ToolPermissionDecision::Deny("b".into())
        ),
        ToolPermissionDecision::Deny(_)
    ));
}

#[test]
fn most_restrictive_confirm_vs_allow() {
    assert_eq!(
        most_restrictive(
            ToolPermissionDecision::Confirm,
            ToolPermissionDecision::Allow
        ),
        ToolPermissionDecision::Confirm
    );
}

#[test]
fn most_restrictive_allow_vs_confirm() {
    assert_eq!(
        most_restrictive(
            ToolPermissionDecision::Allow,
            ToolPermissionDecision::Confirm
        ),
        ToolPermissionDecision::Confirm
    );
}

#[test]
fn most_restrictive_allow_vs_allow() {
    assert_eq!(
        most_restrictive(ToolPermissionDecision::Allow, ToolPermissionDecision::Allow),
        ToolPermissionDecision::Allow
    );
}

#[test]
fn most_restrictive_keeps_first_deny_reason() {
    match most_restrictive(
        ToolPermissionDecision::Deny("a".into()),
        ToolPermissionDecision::Deny("b".into()),
    ) {
        ToolPermissionDecision::Deny(msg) => assert_eq!(msg, "a"),
        other => panic!("Expected Deny, got {:?}", other),
    }
}

#[test]
fn decide_permission_for_path_no_dots_early_return() {
    // When the path has no `.` or `..`, normalize_path returns the same string,
    // so decide_permission_for_path returns the raw decision directly.
    let perms = ToolPermissions::new();
    let decision =
        decide_permission_for_path(EDIT_FILE, "src/main.rs", &perms, false, ShellKind::Posix);
    assert_eq!(decision, ToolPermissionDecision::Confirm);
}

#[test]
fn decide_permission_for_path_traversal_triggers_deny() {
    let deny_regex = CompiledRegex::new("/etc/passwd", false).unwrap();
    let mut perms = ToolPermissions::new();
    perms.insert(
        EDIT_FILE.to_string(),
        ToolRules {
            default_mode: ToolPermissionMode::Allow,
            always_allow: vec![],
            always_deny: vec![deny_regex],
            always_confirm: vec![],
            invalid_patterns: vec![],
        },
    );

    let decision = decide_permission_for_path(
        EDIT_FILE,
        "/tmp/../etc/passwd",
        &perms,
        false,
        ShellKind::Posix,
    );
    assert!(
        matches!(decision, ToolPermissionDecision::Deny(_)),
        "expected Deny for traversal to /etc/passwd, got {:?}",
        decision
    );
}
