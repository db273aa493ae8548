//! Engine-wide laws, stated over the same specification the executable
//! functions are proved against.

use vstd::prelude::*;
use crate::decision::{DecisionSpec, ToolPermissionDecision, decision_equiv, decision_matches};
use crate::engine::{decide_spec, eval_commands_spec, extracted_for};
use crate::hardcoded::{hardcoded_check_spec, hardcoded_denial_msg, terminal_tool};
use crate::policy::{RulesModel, ToolPermissionMode, lookup_spec};
use crate::shell::ShellKind;

verus! {

/// For every tool name that the policy table holds no entry for, and
/// with the global override off, the decision is Confirm — the built-in
/// check never applies to a tool other than the shell-execution tool.
pub proof fn lemma_unconfigured_tool_confirms(
    tool: Seq<char>,
    input: Seq<char>,
    table: Seq<(Seq<char>, RulesModel)>,
    shell: ShellKind,
)
    requires
        lookup_spec(table, tool) is None,
        tool != terminal_tool(),
    ensures
        decide_spec(tool, input, table, false, shell) == DecisionSpec::Confirm,
{
}

/// With the global override on, the decision is Allow for every input,
/// tool and table — except when the built-in ruleset fires, whose
/// denial always wins over the override.
pub proof fn lemma_global_override(
    tool: Seq<char>,
    input: Seq<char>,
    table: Seq<(Seq<char>, RulesModel)>,
    shell: ShellKind,
)
    ensures
        hardcoded_check_spec(tool, input, extracted_for(tool, input, shell)) ==> decide_spec(
            tool,
            input,
            table,
            true,
            shell,
        ) == DecisionSpec::Deny(hardcoded_denial_msg()),
        !hardcoded_check_spec(tool, input, extracted_for(tool, input, shell)) ==> decide_spec(
            tool,
            input,
            table,
            true,
            shell,
        ) == DecisionSpec::Allow,
{
}

/// When the built-in ruleset catches an invocation, the decision is its
/// fixed denial — for every policy table, every global-override setting,
/// and every configured allow pattern the table may hold.
pub proof fn lemma_hardcoded_denial_wins(
    tool: Seq<char>,
    input: Seq<char>,
    table: Seq<(Seq<char>, RulesModel)>,
    global_override: bool,
    shell: ShellKind,
)
    requires
        hardcoded_check_spec(tool, input, extracted_for(tool, input, shell)),
    ensures
        decide_spec(tool, input, table, global_override, shell) == DecisionSpec::Deny(
            hardcoded_denial_msg(),
        ),
{
}

/// An empty command list is never auto-allowed: with nothing vouched
/// for, the result can only be Allow by the tool's own default mode,
/// never by allow-matching.
pub proof fn lemma_empty_command_list_not_auto_allowed(
    rules: RulesModel,
    tool: Seq<char>,
    allow_enabled: bool,
)
    ensures
        eval_commands_spec(Seq::empty(), rules, tool, allow_enabled) is Allow ==> rules.default_mode
            == ToolPermissionMode::Allow,
{
}

/// Deciding is idempotent: two results that both satisfy the engine's
/// contract for the same arguments are the same decision, reason text
/// included. There is no hidden state.
pub proof fn lemma_decide_deterministic(
    r1: ToolPermissionDecision,
    r2: ToolPermissionDecision,
    tool: Seq<char>,
    input: Seq<char>,
    table: Seq<(Seq<char>, RulesModel)>,
    global_override: bool,
    shell: ShellKind,
)
    requires
        decision_matches(r1, decide_spec(tool, input, table, global_override, shell)),
        decision_matches(r2, decide_spec(tool, input, table, global_override, shell)),
    ensures
        decision_equiv(r1, r2),
{
}

} // verus!
