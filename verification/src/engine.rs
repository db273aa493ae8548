//! The permission-decision engine: layered precedence over the built-in
//! safety rules, the global override, the per-tool pattern lists and the
//! per-command evaluation of a shell chain.

use vstd::prelude::*;
use crate::chain::{extract_commands, extract_spec};
use crate::decision::{DecisionSpec, ToolPermissionDecision, decision_matches};
use crate::decision::{most_restrictive, most_restrictive_spec, decision_rank};
use crate::hardcoded::{
    HardcodedSecurityRules, check_hardcoded_security_rules, hardcoded_check_spec,
    hardcoded_denial_msg, denial_message, terminal_tool, hardcoded_pattern_spec,
};
use crate::path::{normalize_path, normalize_spec};
use crate::pattern::{CompiledRegex, RegexModel, regex_valid, rule_matches};
use crate::policy::{RulesModel, ToolPermissionMode, ToolPermissions, ToolRules, lookup_spec, table_model};
use crate::shell::ShellKind;
use crate::text::{dec_repr, str_eq, usize_to_string};

verus! {

/// Whether any pattern of the list matches the text.
pub open spec fn cmd_matches_any(rs: Seq<RegexModel>, text: Seq<char>) -> bool {
    exists|j: int| 0 <= j < rs.len() && rule_matches(#[trigger] rs[j], text)
}

/// Whether any command of the list matches any pattern of the list.
pub open spec fn any_cmd_matches(rs: Seq<RegexModel>, cmds: Seq<Seq<char>>) -> bool {
    exists|i: int| 0 <= i < cmds.len() && cmd_matches_any(rs, #[trigger] cmds[i])
}

/// Whether every command of the list matches some pattern of the list.
pub open spec fn all_cmds_match(rs: Seq<RegexModel>, cmds: Seq<Seq<char>>) -> bool {
    forall|i: int| 0 <= i < cmds.len() ==> cmd_matches_any(rs, #[trigger] cmds[i])
}

/// The reason given when a configured deny pattern matches.
pub open spec fn deny_rule_msg(tool: Seq<char>) -> Seq<char> {
    "Command blocked by security rule for "@ + tool + " tool"@
}

/// The reason given when a tool's default mode is Deny.
pub open spec fn disabled_msg(tool: Seq<char>) -> Seq<char> {
    tool + " tool is disabled"@
}

/// The reason given while a tool's configuration holds patterns that
/// failed to compile, with singular/plural wording by `count`.
pub open spec fn invalid_patterns_msg(tool: Seq<char>, count: nat) -> Seq<char> {
    "The "@ + tool + " tool cannot run because "@ + dec_repr(count) + " regex "@ + (if count == 1 {
        "pattern"@
    } else {
        "patterns"@
    }) + " failed to compile. Please fix the invalid patterns in your tool_permissions settings."@
}

/// The reason given when allow patterns are configured for a shell whose
/// chaining syntax cannot be decomposed.
pub open spec fn shell_deny_msg(shell: ShellKind) -> Seq<char> {
    "The "@ + shell.name_spec()
        + " shell does not support \"always allow\" patterns for the terminal tool because its command chaining syntax cannot be parsed safely. Please remove the always_allow patterns from your tool_permissions settings, or switch to a POSIX-conforming shell."@
}

/// One pass over a command list: any deny match denies; else any confirm
/// match confirms; else, when allow-matching is enabled, a non-empty
/// list whose every command matches an allow pattern is allowed; else
/// the tool's default mode decides.
pub open spec fn eval_commands_spec(
    cmds: Seq<Seq<char>>,
    rules: RulesModel,
    tool: Seq<char>,
    allow_enabled: bool,
) -> DecisionSpec {
    if any_cmd_matches(rules.always_deny, cmds) {
        DecisionSpec::Deny(deny_rule_msg(tool))
    } else if any_cmd_matches(rules.always_confirm, cmds) {
        DecisionSpec::Confirm
    } else if allow_enabled && cmds.len() > 0 && all_cmds_match(rules.always_allow, cmds) {
        DecisionSpec::Allow
    } else {
        match rules.default_mode {
            ToolPermissionMode::Deny => DecisionSpec::Deny(disabled_msg(tool)),
            ToolPermissionMode::Allow => DecisionSpec::Allow,
            ToolPermissionMode::Confirm => DecisionSpec::Confirm,
        }
    }
}

/// The sub-commands the engine works with: extraction is attempted only
/// for the shell-execution tool under a dialect whose chaining can be
/// parsed.
pub open spec fn extracted_for(tool: Seq<char>, input: Seq<char>, shell: ShellKind) -> Option<
    Seq<Seq<char>>,
> {
    if tool == terminal_tool() && shell.chaining_supported() {
        extract_spec(input)
    } else {
        None
    }
}

/// The whole decision, in precedence order: the built-in rules (which
/// nothing can override), the global override, a missing table entry
/// (Confirm), the invalid-pattern gate, the shell-compatibility gate,
/// and the per-command evaluation.
pub open spec fn decide_spec(
    tool: Seq<char>,
    input: Seq<char>,
    table: Seq<(Seq<char>, RulesModel)>,
    global_override: bool,
    shell: ShellKind,
) -> DecisionSpec {
    let extracted = extracted_for(tool, input, shell);
    if hardcoded_check_spec(tool, input, extracted) {
        DecisionSpec::Deny(hardcoded_denial_msg())
    } else {
        decide_after_spec(tool, input, table, global_override, shell, extracted)
    }
}

/// The decision once the built-in check did not fire, over the
/// sub-commands `extracted`.
pub open spec fn decide_after_spec(
    tool: Seq<char>,
    input: Seq<char>,
    table: Seq<(Seq<char>, RulesModel)>,
    global_override: bool,
    shell: ShellKind,
    extracted: Option<Seq<Seq<char>>>,
) -> DecisionSpec {
    if global_override {
        DecisionSpec::Allow
    } else {
        match lookup_spec(table, tool) {
            None => DecisionSpec::Confirm,
            Some(rules) => {
                if rules.invalid_patterns.len() > 0 {
                    DecisionSpec::Deny(invalid_patterns_msg(tool, rules.invalid_patterns.len()))
                } else if tool == terminal_tool() {
                    if !shell.chaining_supported() {
                        if rules.always_allow.len() > 0 {
                            DecisionSpec::Deny(shell_deny_msg(shell))
                        } else {
                            eval_commands_spec(seq![input], rules, tool, false)
                        }
                    } else {
                        match extracted {
                            Some(cmds) => eval_commands_spec(cmds, rules, tool, true),
                            None => eval_commands_spec(seq![input], rules, tool, false),
                        }
                    }
                } else {
                    eval_commands_spec(seq![input], rules, tool, true)
                }
            },
        }
    }
}

/// Whether the five built-in patterns compile; fixed strings, so this
/// holds on any run, and the engine fails closed if it somehow did not.
pub open spec fn hardcoded_rules_available() -> bool {
    forall|k: int| 0 <= k < 5 ==> regex_valid(#[trigger] hardcoded_pattern_spec(k), false)
}

/// Tests `text` against each pattern in the list.
fn any_rule_matches(rs: &Vec<CompiledRegex>, text: &str) -> (r: bool)
    ensures
        r == cmd_matches_any(rs@.map_values(|c: CompiledRegex| c@), text@),
{
    let ghost model = rs@.map_values(|c: CompiledRegex| c@);
    let mut j: usize = 0;
    while j < rs.len()
        invariant
            model == rs@.map_values(|c: CompiledRegex| c@),
            j <= rs@.len(),
            forall|k: int| 0 <= k < j ==> !rule_matches(#[trigger] model[k], text@),
        decreases rs@.len() - j,
    {
        proof {
            assert(model[j as int] == rs@[j as int]@);
        }
        if rs[j].is_match(text) {
            return true;
        }
        j = j + 1;
    }
    false
}

/// Evaluates the rules against a set of commands in one pass, as
/// [`eval_commands_spec`] says. `allow_enabled` is false when the
/// command structure could not be verified, so that allow patterns are
/// never trusted against a chain that might hide sub-commands.
pub fn check_commands(
    commands: &Vec<String>,
    rules: &ToolRules,
    tool_name: &str,
    allow_enabled: bool,
) -> (r: ToolPermissionDecision)
    ensures
        decision_matches(
            r,
            eval_commands_spec(
                commands@.map_values(|s: String| s@),
                rules@,
                tool_name@,
                allow_enabled,
            ),
        ),
{
    let ghost cmds = commands@.map_values(|s: String| s@);
    let mut any_matched_confirm = false;
    let mut all_matched_allow = true;
    let mut i: usize = 0;
    while i < commands.len()
        invariant
            cmds == commands@.map_values(|s: String| s@),
            rules@.always_deny == rules.always_deny@.map_values(|c: CompiledRegex| c@),
            rules@.always_confirm == rules.always_confirm@.map_values(|c: CompiledRegex| c@),
            rules@.always_allow == rules.always_allow@.map_values(|c: CompiledRegex| c@),
            i <= cmds.len(),
            forall|k: int| 0 <= k < i ==> !cmd_matches_any(rules@.always_deny, #[trigger] cmds[k]),
            any_matched_confirm == exists|k: int|
                0 <= k < i && cmd_matches_any(rules@.always_confirm, #[trigger] cmds[k]),
            all_matched_allow == forall|k: int|
                0 <= k < i ==> cmd_matches_any(rules@.always_allow, #[trigger] cmds[k]),
        decreases commands@.len() - i,
    {
        proof {
            assert(cmds[i as int] == commands@[i as int]@);
        }
        let command = &commands[i];

        if any_rule_matches(&rules.always_deny, command.as_str()) {
            proof {
                assert(cmd_matches_any(rules@.always_deny, cmds[i as int]));
                assert(any_cmd_matches(rules@.always_deny, cmds));
            }
            return ToolPermissionDecision::Deny(deny_rule_message(tool_name));
        }

        if any_rule_matches(&rules.always_confirm, command.as_str()) {
            any_matched_confirm = true;
        }

        if !any_rule_matches(&rules.always_allow, command.as_str()) {
            all_matched_allow = false;
        }
        i = i + 1;
    }
    proof {
        assert(!any_cmd_matches(rules@.always_deny, cmds));
        assert(any_matched_confirm == any_cmd_matches(rules@.always_confirm, cmds));
        if all_matched_allow {
            assert(all_cmds_match(rules@.always_allow, cmds));
        }
        if all_cmds_match(rules@.always_allow, cmds) {
            assert(all_matched_allow);
        }
    }

    if any_matched_confirm {
        return ToolPermissionDecision::Confirm;
    }

    if allow_enabled && all_matched_allow && commands.len() > 0 {
        return ToolPermissionDecision::Allow;
    }

    match rules.default_mode {
        ToolPermissionMode::Deny => ToolPermissionDecision::Deny(disabled_message(tool_name)),
        ToolPermissionMode::Allow => ToolPermissionDecision::Allow,
        ToolPermissionMode::Confirm => ToolPermissionDecision::Confirm,
    }
}

/// The reason attached when a deny pattern matches.
fn deny_rule_message(tool_name: &str) -> (r: String)
    ensures
        r@ == deny_rule_msg(tool_name@),
{
    let mut s = String::from_str("Command blocked by security rule for ");
    s.append(tool_name);
    s.append(" tool");
    s
}

/// The reason attached when a tool's default mode is Deny.
fn disabled_message(tool_name: &str) -> (r: String)
    ensures
        r@ == disabled_msg(tool_name@),
{
    let mut s = String::from_str(tool_name);
    s.append(" tool is disabled");
    s
}

/// Checks the invalid-pattern gate: a tool whose configuration holds
/// patterns that failed to compile is blocked entirely, with a counted,
/// correctly pluralized reason.
pub fn check_invalid_patterns(tool_name: &str, rules: &ToolRules) -> (r: Option<String>)
    ensures
        r is Some <==> rules@.invalid_patterns.len() > 0,
        r matches Some(m) ==> m@ == invalid_patterns_msg(
            tool_name@,
            rules@.invalid_patterns.len(),
        ),
{
    let count = rules.invalid_patterns.len();
    if count == 0 {
        return None;
    }
    let mut s = String::from_str("The ");
    s.append(tool_name);
    s.append(" tool cannot run because ");
    let n = usize_to_string(count);
    s.append(n.as_str());
    if count == 1 {
        s.append(" regex pattern");
    } else {
        s.append(" regex patterns");
    }
    s.append(" failed to compile. Please fix the invalid patterns in your tool_permissions settings.");
    proof {
        reveal_strlit(" regex ");
        reveal_strlit(" regex pattern");
        reveal_strlit(" regex patterns");
        reveal_strlit("pattern");
        reveal_strlit("patterns");
        assert(" regex pattern"@ =~= " regex "@ + "pattern"@);
        assert(" regex patterns"@ =~= " regex "@ + "patterns"@);
        assert(s@ =~= invalid_patterns_msg(tool_name@, rules@.invalid_patterns.len()));
    }
    Some(s)
}

/// The reason attached when allow patterns are configured for a shell
/// whose chaining cannot be parsed.
fn shell_deny_message(shell: ShellKind) -> (r: String)
    ensures
        r@ == shell_deny_msg(shell),
{
    let mut s = String::from_str("The ");
    s.append(shell.name());
    s.append(
        " shell does not support \"always allow\" patterns for the terminal tool because its command chaining syntax cannot be parsed safely. Please remove the always_allow patterns from your tool_permissions settings, or switch to a POSIX-conforming shell.",
    );
    s
}

/// A one-command list holding the raw input.
fn single_command(input: &str) -> (r: Vec<String>)
    ensures
        r@.map_values(|s: String| s@) == seq![input@],
{
    let mut v: Vec<String> = Vec::new();
    v.push(String::from_str(input));
    proof {
        assert(v@.map_values(|s: String| s@) =~= seq![input@]);
    }
    v
}

/// Decides the permission for one tool invocation, with the built-in
/// ruleset injected by the caller. Precedence, highest first: the
/// built-in rules, the global override, the per-tool configuration.
pub fn decide_with_rules(
    tool_name: &str,
    input: &str,
    permissions: &ToolPermissions,
    always_allow_tool_actions: bool,
    shell_kind: ShellKind,
    rules: &HardcodedSecurityRules,
) -> (r: ToolPermissionDecision)
    requires
        rules.wf(),
    ensures
        decision_matches(
            r,
            decide_spec(
                tool_name@,
                input@,
                table_model(permissions),
                always_allow_tool_actions,
                shell_kind,
            ),
        ),
{
    let is_terminal = str_eq(tool_name, "terminal");

    // Extract sub-commands once, for the built-in rules and the pattern
    // evaluation alike.
    let extracted: Option<Vec<String>> = if is_terminal && shell_kind.supports_posix_chaining() {
        extract_commands(input)
    } else {
        None
    };
    let ghost emodel = extracted_for(tool_name@, input@, shell_kind);
    proof {
        match &extracted {
            Some(v) => {
                assert(emodel == Some(v@.map_values(|s: String| s@)));
            },
            None => {
                assert(emodel is None);
            },
        }
    }

    // The built-in safety rules come first and cannot be bypassed.
    let hardcoded = match &extracted {
        Some(cmds) => check_hardcoded_security_rules(tool_name, input, Some(cmds), rules),
        None => check_hardcoded_security_rules(tool_name, input, None, rules),
    };
    match hardcoded {
        Some(reason) => {
            return ToolPermissionDecision::Deny(reason);
        },
        None => {},
    }

    decide_after_hardcoded(
        tool_name,
        input,
        extracted,
        permissions,
        always_allow_tool_actions,
        shell_kind,
    )
}

/// The engine below the built-in check: the global override, the policy
/// lookup, the invalid-pattern gate, the shell-compatibility gate and
/// the per-command evaluation.
fn decide_after_hardcoded(
    tool_name: &str,
    input: &str,
    extracted: Option<Vec<String>>,
    permissions: &ToolPermissions,
    always_allow_tool_actions: bool,
    shell_kind: ShellKind,
) -> (r: ToolPermissionDecision)
    ensures
        decision_matches(
            r,
            decide_after_spec(
                tool_name@,
                input@,
                table_model(permissions),
                always_allow_tool_actions,
                shell_kind,
                match extracted {
                    Some(v) => Some(v@.map_values(|s: String| s@)),
                    None => None,
                },
            ),
        ),
{
    let is_terminal = str_eq(tool_name, "terminal");

    // The global override bypasses the configurable checks below, never
    // the built-in rules above.
    if always_allow_tool_actions {
        return ToolPermissionDecision::Allow;
    }

    let tool_rules = match permissions.get(tool_name) {
        Some(tool_rules) => tool_rules,
        None => {
            return ToolPermissionDecision::Confirm;
        },
    };

    // A configuration with patterns that failed to compile blocks the
    // tool until it is fixed.
    match check_invalid_patterns(tool_name, tool_rules) {
        Some(error) => {
            return ToolPermissionDecision::Deny(error);
        },
        None => {},
    }

    if is_terminal {
        if !shell_kind.supports_posix_chaining() {
            if tool_rules.always_allow.len() > 0 {
                // Allow patterns cannot be honoured when the chain
                // structure cannot be verified: fail closed.
                return ToolPermissionDecision::Deny(shell_deny_message(shell_kind));
            }
            let single = single_command(input);
            return check_commands(&single, tool_rules, tool_name, false);
        }
        match extracted {
            Some(cmds) => check_commands(&cmds, tool_rules, tool_name, true),
            None => {
                // Unparseable input: evaluate the raw input with
                // allow-matching disabled.
                let single = single_command(input);
                check_commands(&single, tool_rules, tool_name, false)
            },
        }
    } else {
        let single = single_command(input);
        check_commands(&single, tool_rules, tool_name, true)
    }
}

/// Decides the permission for one tool invocation. The built-in ruleset
/// is compiled from its fixed patterns; it only concerns the
/// shell-execution tool, and should its compilation ever fail, that tool
/// fails closed and is denied.
pub fn decide_tool_permission(
    tool_name: &str,
    input: &str,
    permissions: &ToolPermissions,
    always_allow_tool_actions: bool,
    shell_kind: ShellKind,
) -> (r: ToolPermissionDecision)
    ensures
        (hardcoded_rules_available() || tool_name@ != terminal_tool()) ==> decision_matches(
            r,
            decide_spec(
                tool_name@,
                input@,
                table_model(permissions),
                always_allow_tool_actions,
                shell_kind,
            ),
        ),
        !hardcoded_rules_available() && tool_name@ == terminal_tool() ==> r is Deny,
{
    if !str_eq(tool_name, "terminal") {
        // The built-in check never applies to a tool other than the
        // shell-execution tool, and neither does chain extraction.
        return decide_after_hardcoded(
            tool_name,
            input,
            None,
            permissions,
            always_allow_tool_actions,
            shell_kind,
        );
    }
    match HardcodedSecurityRules::new() {
        Some(rules) => decide_with_rules(
            tool_name,
            input,
            permissions,
            always_allow_tool_actions,
            shell_kind,
            &rules,
        ),
        None => ToolPermissionDecision::Deny(denial_message()),
    }
}

/// The more restrictive of two specification-level decisions; the first
/// wins ties.
pub open spec fn combine_spec(a: DecisionSpec, b: DecisionSpec) -> DecisionSpec {
    if spec_rank(a) >= spec_rank(b) {
        a
    } else {
        b
    }
}

/// Restrictiveness rank of a specification-level decision.
pub open spec fn spec_rank(d: DecisionSpec) -> int {
    match d {
        DecisionSpec::Allow => 0,
        DecisionSpec::Confirm => 1,
        DecisionSpec::Deny(_) => 2,
    }
}

/// The decision for a filesystem path: the raw path's decision, and —
/// when normalization changes the path — the stricter of it and the
/// normalized path's decision.
pub open spec fn decide_for_path_spec(
    tool: Seq<char>,
    raw: Seq<char>,
    table: Seq<(Seq<char>, RulesModel)>,
    global_override: bool,
    shell: ShellKind,
) -> DecisionSpec {
    let d1 = decide_spec(tool, raw, table, global_override, shell);
    if normalize_spec(raw) == raw {
        d1
    } else {
        combine_spec(d1, decide_spec(tool, normalize_spec(raw), table, global_override, shell))
    }
}

/// Decides the permission for a filesystem path, evaluating both the
/// raw and the lexically normalized form and returning the more
/// restrictive decision: a raw path that only normalizes into a
/// protected location is still caught.
pub fn decide_permission_for_path(
    tool_name: &str,
    raw_path: &str,
    permissions: &ToolPermissions,
    always_allow_tool_actions: bool,
    shell_kind: ShellKind,
) -> (r: ToolPermissionDecision)
    ensures
        (hardcoded_rules_available() || tool_name@ != terminal_tool()) ==> decision_matches(
            r,
            decide_for_path_spec(
                tool_name@,
                raw_path@,
                table_model(permissions),
                always_allow_tool_actions,
                shell_kind,
            ),
        ),
        !hardcoded_rules_available() && tool_name@ == terminal_tool() ==> r is Deny,
{
    let raw_decision = decide_tool_permission(
        tool_name,
        raw_path,
        permissions,
        always_allow_tool_actions,
        shell_kind,
    );

    let simplified = normalize_path(raw_path);
    if str_eq(simplified.as_str(), raw_path) {
        return raw_decision;
    }

    let simplified_decision = decide_tool_permission(
        tool_name,
        simplified.as_str(),
        permissions,
        always_allow_tool_actions,
        shell_kind,
    );

    let r = most_restrictive(raw_decision, simplified_decision);
    proof {
        if hardcoded_rules_available() || tool_name@ != terminal_tool() {
            let d1 = decide_spec(
                tool_name@,
                raw_path@,
                table_model(permissions),
                always_allow_tool_actions,
                shell_kind,
            );
            let d2 = decide_spec(
                tool_name@,
                normalize_spec(raw_path@),
                table_model(permissions),
                always_allow_tool_actions,
                shell_kind,
            );
            assert(decision_rank(raw_decision) == spec_rank(d1));
            assert(decision_rank(simplified_decision) == spec_rank(d2));
            assert(decision_matches(r, combine_spec(d1, d2)));
        }
    }
    r
}

} // verus!
