//! Per-tool permission configuration: a default mode, three compiled
//! pattern lists, and the records of patterns that failed to compile.

use vstd::prelude::*;
use crate::pattern::{
    CompiledRegex, InvalidPatternModel, InvalidRegexPattern, RegexModel, regex_valid,
};
use crate::text::str_eq;

verus! {

/// The mode a tool falls back to when no pattern decides.
#[derive(Debug, Clone, Copy, PartialEq, Eq, Structural)]
pub enum ToolPermissionMode {
    Allow,
    Deny,
    Confirm,
}

impl Default for ToolPermissionMode {
    /// An unconfigured tool asks the user.
    fn default() -> (r: Self)
        ensures
            r == ToolPermissionMode::Confirm,
    {
        ToolPermissionMode::Confirm
    }
}

/// Configured rules for one tool.
pub struct ToolRules {
    pub default_mode: ToolPermissionMode,
    pub always_allow: Vec<CompiledRegex>,
    pub always_deny: Vec<CompiledRegex>,
    pub always_confirm: Vec<CompiledRegex>,
    /// Patterns that failed to compile. If non-empty, calls of the tool
    /// are blocked until the configuration is fixed.
    pub invalid_patterns: Vec<InvalidRegexPattern>,
}

/// Specification-level content of one tool's rules.
#[verifier::ext_equal]
pub ghost struct RulesModel {
    pub default_mode: ToolPermissionMode,
    pub always_allow: Seq<RegexModel>,
    pub always_deny: Seq<RegexModel>,
    pub always_confirm: Seq<RegexModel>,
    pub invalid_patterns: Seq<InvalidPatternModel>,
}

impl View for ToolRules {
    type V = RulesModel;

    open spec fn view(&self) -> RulesModel {
        RulesModel {
            default_mode: self.default_mode,
            always_allow: self.always_allow@.map_values(|r: CompiledRegex| r@),
            always_deny: self.always_deny@.map_values(|r: CompiledRegex| r@),
            always_confirm: self.always_confirm@.map_values(|r: CompiledRegex| r@),
            invalid_patterns: self.invalid_patterns@.map_values(|p: InvalidRegexPattern| p@),
        }
    }
}

impl Default for ToolRules {
    /// No patterns, default mode Confirm.
    fn default() -> (r: Self)
        ensures
            r@ == default_rules_model(),
    {
        let r = ToolRules {
            default_mode: ToolPermissionMode::Confirm,
            always_allow: Vec::new(),
            always_deny: Vec::new(),
            always_confirm: Vec::new(),
            invalid_patterns: Vec::new(),
        };
        proof {
            assert(r@ =~= default_rules_model());
        }
        r
    }
}

/// The rules of a tool nobody configured.
pub open spec fn default_rules_model() -> RulesModel {
    RulesModel {
        default_mode: ToolPermissionMode::Confirm,
        always_allow: Seq::empty(),
        always_deny: Seq::empty(),
        always_confirm: Seq::empty(),
        invalid_patterns: Seq::empty(),
    }
}

/// The permission configuration for all tools: a mapping from exact tool
/// name to that tool's rules. Lookup is by full string equality — never
/// by prefix or substring — and the first entry with a matching name
/// wins.
pub struct ToolPermissions {
    pub tools: Vec<(String, ToolRules)>,
}

/// Specification-level content of the whole table.
pub open spec fn table_model(t: &ToolPermissions) -> Seq<(Seq<char>, RulesModel)> {
    t.tools@.map_values(|e: (String, ToolRules)| (e.0@, e.1@))
}

/// The rules the table holds for `name`: the first entry whose name
/// matches exactly, if any.
pub open spec fn lookup_spec(entries: Seq<(Seq<char>, RulesModel)>, name: Seq<char>) -> Option<
    RulesModel,
>
    decreases entries.len(),
{
    if entries.len() == 0 {
        None
    } else if entries.first().0 == name {
        Some(entries.first().1)
    } else {
        lookup_spec(entries.drop_first(), name)
    }
}

impl ToolPermissions {
    /// An empty table: no tool is configured.
    pub fn new() -> (r: ToolPermissions)
        ensures
            table_model(&r) == Seq::<(Seq<char>, RulesModel)>::empty(),
    {
        let r = ToolPermissions { tools: Vec::new() };
        proof {
            assert(table_model(&r) =~= Seq::<(Seq<char>, RulesModel)>::empty());
        }
        r
    }

    /// Appends a tool's rules to the table.
    pub fn insert(&mut self, name: String, rules: ToolRules)
        ensures
            table_model(&*final(self)) == table_model(&*old(self)).push((name@, rules@)),
    {
        let ghost before = table_model(self);
        self.tools.push((name, rules));
        proof {
            assert(table_model(self) =~= before.push(
                (self.tools@.last().0@, self.tools@.last().1@),
            ));
        }
    }

    /// Finds the rules configured for `tool_name`, by exact name match.
    pub fn get(&self, tool_name: &str) -> (r: Option<&ToolRules>)
        ensures
            match r {
                Some(rules) => lookup_spec(table_model(self), tool_name@) == Some(rules@),
                None => lookup_spec(table_model(self), tool_name@) is None,
            },
    {
        let mut i: usize = 0;
        proof {
            assert(table_model(self).skip(0) =~= table_model(self));
        }
        while i < self.tools.len()
            invariant
                i <= self.tools@.len(),
                lookup_spec(table_model(self), tool_name@) == lookup_spec(
                    table_model(self).skip(i as int),
                    tool_name@,
                ),
            decreases self.tools@.len() - i,
        {
            proof {
                assert(table_model(self).skip(i as int).first() == (
                    self.tools@[i as int].0@,
                    self.tools@[i as int].1@,
                ));
                assert(table_model(self).skip(i as int).drop_first() =~= table_model(self).skip(
                    i + 1,
                ));
            }
            let entry = &self.tools[i];
            if str_eq(entry.0.as_str(), tool_name) {
                return Some(&entry.1);
            }
            i = i + 1;
        }
        proof {
            assert(table_model(self).skip(i as int) =~= Seq::<(Seq<char>, RulesModel)>::empty());
        }
        None
    }

    /// All invalid-pattern records across all tools, in table order.
    pub fn invalid_patterns(&self) -> (r: Vec<&InvalidRegexPattern>)
        ensures
            r@.map_values(|p: &InvalidRegexPattern| p@) == all_invalid(table_model(self)),
    {
        let mut out: Vec<&InvalidRegexPattern> = Vec::new();
        let mut i: usize = 0;
        proof {
            assert(out@.map_values(|p: &InvalidRegexPattern| p@) =~= all_invalid(
                table_model(self).take(0),
            ));
        }
        while i < self.tools.len()
            invariant
                i <= self.tools@.len(),
                out@.map_values(|p: &InvalidRegexPattern| p@) == all_invalid(
                    table_model(self).take(i as int),
                ),
            decreases self.tools@.len() - i,
        {
            proof {
                assert(table_model(self).take(i + 1).drop_last() =~= table_model(self).take(
                    i as int,
                ));
                assert(table_model(self).take(i + 1).last() == (
                    self.tools@[i as int].0@,
                    self.tools@[i as int].1@,
                ));
            }
            let rules = &self.tools[i].1;
            let mut j: usize = 0;
            while j < rules.invalid_patterns.len()
                invariant
                    j <= rules.invalid_patterns@.len(),
                    rules@.invalid_patterns == rules.invalid_patterns@.map_values(
                        |p: InvalidRegexPattern| p@,
                    ),
                    out@.map_values(|p: &InvalidRegexPattern| p@) == all_invalid(
                        table_model(self).take(i as int),
                    ) + rules@.invalid_patterns.take(j as int),
                decreases rules.invalid_patterns@.len() - j,
            {
                let ghost prev = out@;
                let elem = &rules.invalid_patterns[j];
                out.push(elem);
                proof {
                    assert(out@ =~= prev.push(elem));
                    assert(out@.map_values(|p: &InvalidRegexPattern| p@) =~= prev.map_values(
                        |p: &InvalidRegexPattern| p@,
                    ).push(rules.invalid_patterns@[j as int]@));
                    assert(rules@.invalid_patterns[j as int] == rules.invalid_patterns@[j as int]@);
                    assert(rules@.invalid_patterns.take(j + 1) =~= rules@.invalid_patterns.take(
                        j as int,
                    ).push(rules.invalid_patterns@[j as int]@));
                    assert(out@.map_values(|p: &InvalidRegexPattern| p@) =~~= all_invalid(
                        table_model(self).take(i as int),
                    ) + rules@.invalid_patterns.take(j + 1));
                }
                j = j + 1;
            }
            proof {
                assert(rules@.invalid_patterns.take(j as int) =~= rules@.invalid_patterns);
                assert(out@.map_values(|p: &InvalidRegexPattern| p@) =~= all_invalid(
                    table_model(self).take(i + 1),
                ));
            }
            i = i + 1;
        }
        proof {
            assert(table_model(self).take(i as int) =~= table_model(self));
        }
        out
    }

    /// Whether any tool has a pattern that failed to compile.
    pub fn has_invalid_patterns(&self) -> (r: bool)
        ensures
            r == exists|k: int|
                0 <= k < table_model(self).len() && table_model(
                    self,
                )[k].1.invalid_patterns.len() > 0,
    {
        let mut i: usize = 0;
        while i < self.tools.len()
            invariant
                i <= self.tools@.len(),
                forall|k: int|
                    0 <= k < i ==> #[trigger] table_model(self)[k].1.invalid_patterns.len() == 0,
            decreases self.tools@.len() - i,
        {
            if self.tools[i].1.invalid_patterns.len() > 0 {
                proof {
                    assert(table_model(self)[i as int].1.invalid_patterns.len() > 0);
                }
                return true;
            }
            proof {
                assert(table_model(self)[i as int].1.invalid_patterns.len() == 0);
            }
            i = i + 1;
        }
        false
    }
}

/// The concatenation of every tool's invalid-pattern records.
pub open spec fn all_invalid(entries: Seq<(Seq<char>, RulesModel)>) -> Seq<InvalidPatternModel>
    decreases entries.len(),
{
    if entries.len() == 0 {
        Seq::empty()
    } else {
        all_invalid(entries.drop_last()) + entries.last().1.invalid_patterns
    }
}

/// The rule models that a list of `(pattern, case_sensitive)` pairs
/// compiles to: the valid ones, in order.
pub open spec fn compiled_of(rules: Seq<(Seq<char>, bool)>) -> Seq<RegexModel>
    decreases rules.len(),
{
    if rules.len() == 0 {
        Seq::empty()
    } else {
        let pre = compiled_of(rules.drop_last());
        let r = rules.last();
        if regex_valid(r.0, r.1) {
            pre.push(RegexModel { pattern: r.0, case_sensitive: r.1 })
        } else {
            pre
        }
    }
}

/// The `(pattern, rule_type)` parts of the records that a list of pairs
/// produces: one record per invalid pattern, in order.
pub open spec fn invalid_of(rules: Seq<(Seq<char>, bool)>, rule_type: Seq<char>) -> Seq<
    (Seq<char>, Seq<char>),
>
    decreases rules.len(),
{
    if rules.len() == 0 {
        Seq::empty()
    } else {
        let pre = invalid_of(rules.drop_last(), rule_type);
        let r = rules.last();
        if regex_valid(r.0, r.1) {
            pre
        } else {
            pre.push((r.0, rule_type))
        }
    }
}

/// Compiles a configured pattern list. Valid patterns become compiled
/// rules; each invalid pattern is recorded — never silently dropped —
/// with the rule list's name and the compiler's error text.
pub fn compile_regex_rules(rules: Vec<(String, bool)>, rule_type: &str) -> (r: (
    Vec<CompiledRegex>,
    Vec<InvalidRegexPattern>,
))
    ensures
        r.0@.map_values(|c: CompiledRegex| c@) == compiled_of(
            rules@.map_values(|p: (String, bool)| (p.0@, p.1)),
        ),
        r.1@.map_values(|p: InvalidRegexPattern| (p@.pattern, p@.rule_type)) == invalid_of(
            rules@.map_values(|p: (String, bool)| (p.0@, p.1)),
            rule_type@,
        ),
{
    let ghost pairs = rules@.map_values(|p: (String, bool)| (p.0@, p.1));
    let mut compiled: Vec<CompiledRegex> = Vec::new();
    let mut errors: Vec<InvalidRegexPattern> = Vec::new();
    let mut i: usize = 0;
    proof {
        assert(compiled@.map_values(|c: CompiledRegex| c@) =~= compiled_of(pairs.take(0)));
        assert(errors@.map_values(|p: InvalidRegexPattern| (p@.pattern, p@.rule_type))
            =~= invalid_of(pairs.take(0), rule_type@));
    }
    while i < rules.len()
        invariant
            i <= rules@.len(),
            pairs == rules@.map_values(|p: (String, bool)| (p.0@, p.1)),
            compiled@.map_values(|c: CompiledRegex| c@) == compiled_of(pairs.take(i as int)),
            errors@.map_values(|p: InvalidRegexPattern| (p@.pattern, p@.rule_type)) == invalid_of(
                pairs.take(i as int),
                rule_type@,
            ),
        decreases rules@.len() - i,
    {
        proof {
            assert(pairs.take(i + 1).drop_last() =~= pairs.take(i as int));
            assert(pairs.take(i + 1).last() == (rules@[i as int].0@, rules@[i as int].1));
        }
        let pattern = &rules[i].0;
        let case_sensitive = rules[i].1;
        match CompiledRegex::try_new(pattern.as_str(), case_sensitive) {
            Ok(c) => {
                compiled.push(c);
                proof {
                    assert(compiled@.map_values(|c: CompiledRegex| c@) =~= compiled_of(
                        pairs.take(i + 1),
                    ));
                }
            },
            Err(error) => {
                let record = InvalidRegexPattern {
                    pattern: pattern.clone(),
                    rule_type: rule_type.to_owned(),
                    error,
                };
                errors.push(record);
                proof {
                    assert(errors@.map_values(
                        |p: InvalidRegexPattern| (p@.pattern, p@.rule_type),
                    ) =~= invalid_of(pairs.take(i + 1), rule_type@));
                }
            },
        }
        i = i + 1;
    }
    proof {
        assert(pairs.take(i as int) =~= pairs);
    }
    (compiled, errors)
}

/// Identifier of an agent profile.
#[derive(Debug, Clone, Hash)]
pub struct AgentProfileId(pub String);

impl AgentProfileId {
    pub fn as_str(&self) -> (r: &str)
        ensures
            r@ == self.0@,
    {
        self.0.as_str()
    }
}

impl Default for AgentProfileId {
    /// The profile used when none is configured.
    fn default() -> (r: Self)
        ensures
            r.0@ == "write"@,
    {
        AgentProfileId(String::from_str("write"))
    }
}

impl PartialEq for AgentProfileId {
    fn eq(&self, other: &AgentProfileId) -> (r: bool) {
        self.0.eq(&other.0)
    }
}

impl Eq for AgentProfileId {

}

impl vstd::std_specs::cmp::PartialEqSpecImpl for AgentProfileId {
    open spec fn obeys_eq_spec() -> bool {
        true
    }

    open spec fn eq_spec(&self, other: &AgentProfileId) -> bool {
        self.0@ == other.0@
    }
}

} // verus!
