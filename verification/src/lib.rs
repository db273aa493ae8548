//! Permission decisions for tool invocations made by an autonomous agent.
//!
//! Before a named tool runs, the engine classifies the invocation as
//! `Allow` (run silently), `Confirm` (ask the user first) or `Deny`
//! (refuse, with a reason). The decision combines immutable built-in
//! safety rules, a global override, per-tool pattern lists, and
//! shell-command-chain decomposition.

mod decision;
mod pattern;
mod chain;
mod engine;
mod hardcoded;
mod laws;
mod path;
mod policy;
mod shell;
mod text;

pub use chain::{extract_commands, extract_spec};
pub use decision::{
    DecisionSpec, ToolPermissionDecision, decision_equiv, decision_matches, decision_rank,
    most_restrictive, most_restrictive_spec,
};
pub use engine::{
    check_commands, check_invalid_patterns, combine_spec, decide_after_spec, decide_for_path_spec,
    decide_permission_for_path, decide_spec, decide_tool_permission, decide_with_rules,
    eval_commands_spec, extracted_for, hardcoded_rules_available,
};
pub use hardcoded::{
    HardcodedSecurityRules, check_hardcoded_security_rules, expand_rm_to_single_path_commands,
    expand_spec, hardcoded_blocks, hardcoded_check_spec, hardcoded_denial_msg, terminal_tool,
};
pub use laws::{
    lemma_decide_deterministic, lemma_empty_command_list_not_auto_allowed, lemma_global_override,
    lemma_hardcoded_denial_wins, lemma_unconfigured_tool_confirms,
};
pub use path::{normalize_path, normalize_spec};
pub use pattern::{
    CompiledRegex, InvalidPatternModel, InvalidRegexPattern, RegexModel, regex_match, regex_valid,
    rule_matches,
};
pub use policy::{
    AgentProfileId, RulesModel, ToolPermissionMode, ToolPermissions, ToolRules,
    compile_regex_rules, lookup_spec, table_model,
};
pub use shell::ShellKind;
