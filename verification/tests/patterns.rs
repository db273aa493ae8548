use agent_permissions::{
    AgentProfileId, CompiledRegex, ToolPermissionMode, ToolPermissions, ToolRules,
    compile_regex_rules, extract_commands,
};

#[test]
fn test_compiled_regex_case_insensitive() {
    let regex = CompiledRegex::new("rm\\s+-rf", false).unwrap();
    assert!(regex.is_match("rm -rf /"));
    assert!(regex.is_match("RM -RF /"));
    assert!(regex.is_match("Rm -Rf /"));
}

#[test]
fn test_compiled_regex_case_sensitive() {
    let regex = CompiledRegex::new("DROP\\s+TABLE", true).unwrap();
    assert!(regex.is_match("DROP TABLE users"));
    assert!(!regex.is_match("drop table users"));
}

#[test]
fn test_invalid_regex_returns_none() {
    let result = CompiledRegex::new("[invalid(regex", false);
    assert!(result.is_none());
}

#[test]
fn test_fork_bomb_pattern_matches() {
    let fork_bomb_regex = CompiledRegex::new(r":\(\)\{\s*:\|:&\s*\};:", false).unwrap();
    assert!(
        fork_bomb_regex.is_match(":(){ :|:& };:"),
        "Should match the classic fork bomb"
    );
    assert!(
        fork_bomb_regex.is_match(":(){ :|:&};:"),
        "Should match fork bomb without spaces"
    );
}

#[test]
fn test_compiled_regex_stores_case_sensitivity() {
    let case_sensitive = CompiledRegex::new("test", true).unwrap();
    let case_insensitive = CompiledRegex::new("test", false).unwrap();

    assert!(case_sensitive.case_sensitive);
    assert!(!case_insensitive.case_sensitive);
}

#[test]
fn test_tool_rules_default_returns_confirm() {
    let default_rules = ToolRules::default();
    assert_eq!(default_rules.default_mode, ToolPermissionMode::Confirm);
    assert!(default_rules.always_allow.is_empty());
    assert!(default_rules.always_deny.is_empty());
    assert!(default_rules.always_confirm.is_empty());
}

#[test]
fn test_invalid_regex_is_skipped_not_fail() {
    let (compiled, errors) = compile_regex_rules(
        vec![
            ("[invalid(regex".to_string(), false),
            ("valid_pattern".to_string(), false),
        ],
        "always_deny",
    );
    assert_eq!(compiled.len(), 1);
    assert!(compiled[0].is_match("valid_pattern"));
    assert_eq!(errors.len(), 1);
}

#[test]
fn test_invalid_regex_is_tracked_and_valid_ones_still_compile() {
    let (always_deny, deny_errors) = compile_regex_rules(
        vec![
            ("[invalid(regex".to_string(), false),
            ("valid_pattern".to_string(), false),
        ],
        "always_deny",
    );
    let (always_allow, allow_errors) =
        compile_regex_rules(vec![("[another_bad".to_string(), false)], "always_allow");

    let mut invalid_patterns = Vec::new();
    invalid_patterns.extend(deny_errors);
    invalid_patterns.extend(allow_errors);

    // Valid patterns should still be compiled
    assert_eq!(always_deny.len(), 1);
    assert!(always_deny[0].is_match("valid_pattern"));
    assert_eq!(always_allow.len(), 0);

    // Invalid patterns should be tracked
    assert_eq!(invalid_patterns.len(), 2);

    let deny_invalid = invalid_patterns
        .iter()
        .find(|p| p.rule_type == "always_deny")
        .expect("should have invalid pattern from always_deny");
    assert_eq!(deny_invalid.pattern, "[invalid(regex");
    assert!(!deny_invalid.error.is_empty());

    let allow_invalid = invalid_patterns
        .iter()
        .find(|p| p.rule_type == "always_allow")
        .expect("should have invalid pattern from always_allow");
    assert_eq!(allow_invalid.pattern, "[another_bad");

    // ToolPermissions helper methods should work
    let mut perms = ToolPermissions::new();
    perms.insert(
        "terminal".to_string(),
        ToolRules {
            default_mode: ToolPermissionMode::Confirm,
            always_allow,
            always_deny,
            always_confirm: vec![],
            invalid_patterns,
        },
    );
    assert!(perms.has_invalid_patterns());
    assert_eq!(perms.invalid_patterns().len(), 2);
}

#[test]
fn test_regex_matches_anywhere_in_string_not_just_anchored() {
    let rm_rule = CompiledRegex::new("rm\\s+-rf", false).unwrap();
    let passwd_rule = CompiledRegex::new("/etc/passwd", false).unwrap();

    assert!(
        rm_rule.is_match("echo hello && rm -rf /"),
        "Should match rm -rf in the middle of a command chain"
    );
    assert!(
        rm_rule.is_match("cd /tmp; rm -rf *"),
        "Should match rm -rf after semicolon"
    );
    assert!(
        passwd_rule.is_match("cat /etc/passwd | grep root"),
        "Should match /etc/passwd in a pipeline"
    );
    assert!(
        passwd_rule.is_match("vim /etc/passwd"),
        "Should match /etc/passwd as argument"
    );
}

#[test]
fn test_deny_takes_precedence_over_allow_and_confirm() {
    let deny = CompiledRegex::new("dangerous", false).unwrap();
    let confirm = CompiledRegex::new("dangerous", false).unwrap();
    let allow = CompiledRegex::new("dangerous", false).unwrap();

    assert!(
        deny.is_match("run dangerous command"),
        "Deny rule should match"
    );
    assert!(
        allow.is_match("run dangerous command"),
        "Allow rule should also match (but deny takes precedence at evaluation time)"
    );
    assert!(
        confirm.is_match("run dangerous command"),
        "Confirm rule should also match (but deny takes precedence at evaluation time)"
    );
}

#[test]
fn test_confirm_takes_precedence_over_allow() {
    let confirm = CompiledRegex::new("risky", false).unwrap();
    let allow = CompiledRegex::new("risky", false).unwrap();

    assert!(confirm.is_match("do risky thing"), "Confirm rule should match");
    assert!(
        allow.is_match("do risky thing"),
        "Allow rule should also match (but confirm takes precedence at evaluation time)"
    );
}

#[test]
fn test_always_allow_pattern_only_matches_specified_commands() {
    // When always_allow has pattern "^echo\s", only "echo hello" should be
    // matched, not "git status".
    let allow = CompiledRegex::new("^echo\\s", false).unwrap();

    assert!(
        allow.is_match("echo hello"),
        "Pattern ^echo\\s should match 'echo hello'"
    );
    assert!(
        !allow.is_match("git status"),
        "Pattern ^echo\\s should NOT match 'git status'"
    );
    assert!(
        !allow.is_match("echoHello"),
        "Pattern ^echo\\s should NOT match 'echoHello' (requires whitespace)"
    );

    // default_mode is Confirm when not specified
    assert_eq!(
        ToolRules::default().default_mode,
        ToolPermissionMode::Confirm,
        "default_mode should be Confirm when not specified"
    );
}

// A pattern that failed to compile carries the compiler's error text, not
// an echo of its input.
#[test]
fn compile_error_text_is_not_the_pattern() {
    let err = CompiledRegex::try_new("[invalid(regex", false).unwrap_err();
    assert!(!err.is_empty());
    assert_ne!(err, "[invalid(regex");
}

// The matcher reflects the pattern it was built from, not its input.
#[test]
fn matcher_distinguishes_inputs() {
    let rule = CompiledRegex::new("^abc$", true).unwrap();
    assert!(rule.is_match("abc"));
    assert!(!rule.is_match("abcd"));
    assert!(!rule.is_match(""));
}

#[test]
fn agent_profile_id_default_and_as_str() {
    let id = AgentProfileId::default();
    assert_eq!(id.as_str(), "write");
    let other = AgentProfileId("plan".to_string());
    assert_eq!(other.as_str(), "plan");
    assert!(id != other);
    assert_eq!(id, AgentProfileId("write".to_string()));
}

// The chain extractor itself.
#[test]
fn extract_splits_operators() {
    let cmds = extract_commands("ls && echo hi; cat x | wc -l").unwrap();
    assert_eq!(
        cmds,
        vec![
            "ls".to_string(),
            "echo hi".to_string(),
            "cat x".to_string(),
            "wc -l".to_string(),
        ]
    );
}

#[test]
fn extract_descends_into_substitutions() {
    let cmds = extract_commands("echo $(cat $(whoami).txt)").unwrap();
    assert_eq!(
        cmds,
        vec![
            "whoami".to_string(),
            "cat $(whoami).txt".to_string(),
            "echo $(cat $(whoami).txt)".to_string(),
        ]
    );
}

#[test]
fn extract_backticks_and_process_substitution() {
    let cmds = extract_commands("cat <(sort f) `whoami`").unwrap();
    assert_eq!(
        cmds,
        vec![
            "sort f".to_string(),
            "whoami".to_string(),
            "cat <(sort f) `whoami`".to_string(),
        ]
    );
}

#[test]
fn extract_rejects_dangling_operator() {
    assert!(extract_commands("ls &&").is_none());
    assert!(extract_commands("ls |").is_none());
    assert!(extract_commands("&& ls").is_none());
}

#[test]
fn extract_rejects_unbalanced_delimiters() {
    assert!(extract_commands("echo $(ls").is_none());
    assert!(extract_commands("echo `ls").is_none());
    assert!(extract_commands("echo )").is_none());
    assert!(extract_commands("(ls)").is_none());
}

#[test]
fn extract_empty_input_is_no_commands() {
    assert_eq!(extract_commands("").unwrap(), Vec::<String>::new());
    assert_eq!(extract_commands("  ;  ").unwrap(), Vec::<String>::new());
}

#[test]
fn extract_background_operator_splits() {
    let cmds = extract_commands("sleep 1 & echo done &").unwrap();
    assert_eq!(cmds, vec!["sleep 1".to_string(), "echo done".to_string()]);
}

#[test]
fn extract_quoted_operators_are_literal() {
    let cmds = extract_commands("echo 'a && b'").unwrap();
    assert_eq!(cmds, vec!["echo 'a && b'".to_string()]);
    let cmds = extract_commands("git commit -m \"fix & tidy; done\"").unwrap();
    assert_eq!(cmds, vec!["git commit -m \"fix & tidy; done\"".to_string()]);
}

#[test]
fn extract_substitution_inside_double_quotes_is_live() {
    let cmds = extract_commands("echo \"$(whoami)\"").unwrap();
    assert_eq!(
        cmds,
        vec!["whoami".to_string(), "echo \"$(whoami)\"".to_string()]
    );
}

#[test]
fn extract_single_quotes_suppress_substitution() {
    let cmds = extract_commands("echo '$(whoami)'").unwrap();
    assert_eq!(cmds, vec!["echo '$(whoami)'".to_string()]);
}

#[test]
fn extract_escaped_operator_is_literal() {
    let cmds = extract_commands("echo \\&\\& hi").unwrap();
    assert_eq!(cmds, vec!["echo \\&\\& hi".to_string()]);
}

#[test]
fn extract_rejects_unterminated_quote() {
    assert!(extract_commands("echo 'oops").is_none());
    assert!(extract_commands("echo \"oops").is_none());
    assert!(extract_commands("echo oops\\").is_none());
}
