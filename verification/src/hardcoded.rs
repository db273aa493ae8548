//! The fixed, non-configurable safety rules: deny patterns for commands
//! that would recursively force-delete the filesystem root, the home
//! directory, or the current/parent directory, plus the rewriting of
//! multi-path `rm` invocations into one pseudo-command per path operand
//! so that every operand is tested independently.

use vstd::prelude::*;
use crate::path::normalize_spec;
use crate::path::normalize_path;
use crate::pattern::{CompiledRegex, RegexModel, regex_match, regex_valid};
use crate::text::{ranges_model, split_ws, split_ws_ranges};

verus! {

/// The fixed deny pattern protecting a location, by index: `/`, `~`,
/// `$HOME`/`${HOME}`, `.` and `..`, each with any combination and order
/// of recursive/force flags, long and short, an optional `--` marker, an
/// optional trailing `*` glob, and further flags (including
/// `--flag=value` forms) before, between, or after the path.
pub open spec fn hardcoded_pattern_spec(k: int) -> Seq<char> {
    if k == 0 {
        r"\brm\s+(--[a-zA-Z0-9][-a-zA-Z0-9_]*(=[^\s]*)?\s+|-[a-zA-Z]+\s+)*(--\s+)?/\*?(\s+--[a-zA-Z0-9][-a-zA-Z0-9_]*(=[^\s]*)?|\s+-[a-zA-Z]+)*\s*$"@
    } else if k == 1 {
        r"\brm\s+(--[a-zA-Z0-9][-a-zA-Z0-9_]*(=[^\s]*)?\s+|-[a-zA-Z]+\s+)*(--\s+)?~/?\*?(\s+--[a-zA-Z0-9][-a-zA-Z0-9_]*(=[^\s]*)?|\s+-[a-zA-Z]+)*\s*$"@
    } else if k == 2 {
        r"\brm\s+(--[a-zA-Z0-9][-a-zA-Z0-9_]*(=[^\s]*)?\s+|-[a-zA-Z]+\s+)*(--\s+)?(\$HOME|\$\{HOME\})/?(\*)?(\s+--[a-zA-Z0-9][-a-zA-Z0-9_]*(=[^\s]*)?|\s+-[a-zA-Z]+)*\s*$"@
    } else if k == 3 {
        r"\brm\s+(--[a-zA-Z0-9][-a-zA-Z0-9_]*(=[^\s]*)?\s+|-[a-zA-Z]+\s+)*(--\s+)?\./?\*?(\s+--[a-zA-Z0-9][-a-zA-Z0-9_]*(=[^\s]*)?|\s+-[a-zA-Z]+)*\s*$"@
    } else {
        r"\brm\s+(--[a-zA-Z0-9][-a-zA-Z0-9_]*(=[^\s]*)?\s+|-[a-zA-Z]+\s+)*(--\s+)?\.\./?\*?(\s+--[a-zA-Z0-9][-a-zA-Z0-9_]*(=[^\s]*)?|\s+-[a-zA-Z]+)*\s*$"@
    }
}

/// The five fixed rules, as pattern models; all case-insensitive.
pub open spec fn hardcoded_models() -> Seq<RegexModel> {
    Seq::new(5, |k: int| RegexModel { pattern: hardcoded_pattern_spec(k), case_sensitive: false })
}

/// The fixed ruleset, compiled once and injected into the engine. It can
/// never be disabled or bypassed; the engine applies it to the
/// shell-execution tool only.
pub struct HardcodedSecurityRules {
    pub terminal_deny: Vec<CompiledRegex>,
}

impl HardcodedSecurityRules {
    /// The compiled rules are exactly the five fixed patterns.
    pub open spec fn wf(&self) -> bool {
        self.terminal_deny@.map_values(|r: CompiledRegex| r@) == hardcoded_models()
    }

    /// Compiles the fixed ruleset. The five patterns are fixed, valid
    /// regular expressions, so in practice this never returns `None`;
    /// the caller nevertheless decides what failing closed means.
    pub fn new() -> (r: Option<HardcodedSecurityRules>)
        ensures
            r matches Some(h) ==> h.wf(),
            r is Some <==> forall|k: int|
                0 <= k < 5 ==> regex_valid(#[trigger] hardcoded_pattern_spec(k), false),
    {
        let mut patterns: Vec<&'static str> = Vec::new();
        patterns.push(
            r"\brm\s+(--[a-zA-Z0-9][-a-zA-Z0-9_]*(=[^\s]*)?\s+|-[a-zA-Z]+\s+)*(--\s+)?/\*?(\s+--[a-zA-Z0-9][-a-zA-Z0-9_]*(=[^\s]*)?|\s+-[a-zA-Z]+)*\s*$",
        );
        patterns.push(
            r"\brm\s+(--[a-zA-Z0-9][-a-zA-Z0-9_]*(=[^\s]*)?\s+|-[a-zA-Z]+\s+)*(--\s+)?~/?\*?(\s+--[a-zA-Z0-9][-a-zA-Z0-9_]*(=[^\s]*)?|\s+-[a-zA-Z]+)*\s*$",
        );
        patterns.push(
            r"\brm\s+(--[a-zA-Z0-9][-a-zA-Z0-9_]*(=[^\s]*)?\s+|-[a-zA-Z]+\s+)*(--\s+)?(\$HOME|\$\{HOME\})/?(\*)?(\s+--[a-zA-Z0-9][-a-zA-Z0-9_]*(=[^\s]*)?|\s+-[a-zA-Z]+)*\s*$",
        );
        patterns.push(
            r"\brm\s+(--[a-zA-Z0-9][-a-zA-Z0-9_]*(=[^\s]*)?\s+|-[a-zA-Z]+\s+)*(--\s+)?\./?\*?(\s+--[a-zA-Z0-9][-a-zA-Z0-9_]*(=[^\s]*)?|\s+-[a-zA-Z]+)*\s*$",
        );
        patterns.push(
            r"\brm\s+(--[a-zA-Z0-9][-a-zA-Z0-9_]*(=[^\s]*)?\s+|-[a-zA-Z]+\s+)*(--\s+)?\.\./?\*?(\s+--[a-zA-Z0-9][-a-zA-Z0-9_]*(=[^\s]*)?|\s+-[a-zA-Z]+)*\s*$",
        );
        proof {
            assert forall|k: int| 0 <= k < 5 implies (#[trigger] patterns@[k])@
                == hardcoded_pattern_spec(k) by {
        }
        }
        let mut compiled: Vec<CompiledRegex> = Vec::new();
        let mut i: usize = 0;
        while i < patterns.len()
            invariant
                patterns@.len() == 5,
                forall|k: int| 0 <= k < 5 ==> (#[trigger] patterns@[k])@ == hardcoded_pattern_spec(
                    k,
                ),
                i <= 5,
                compiled@.len() == i,
                forall|k: int|
                    0 <= k < i ==> (#[trigger] compiled@[k])@ == (RegexModel {
                        pattern: hardcoded_pattern_spec(k),
                        case_sensitive: false,
                    }),
                forall|k: int|
                    0 <= k < i ==> regex_valid(#[trigger] hardcoded_pattern_spec(k), false),
            decreases patterns@.len() - i,
        {
            match CompiledRegex::new(patterns[i], false) {
                Some(c) => {
                    compiled.push(c);
                },
                None => {
                    return None;
                },
            }
            i = i + 1;
        }
        let r = HardcodedSecurityRules { terminal_deny: compiled };
        proof {
            assert(r.terminal_deny@.map_values(|c: CompiledRegex| c@) =~= hardcoded_models());
        }
        Some(r)
    }
}

/// Whether `text` matches one of the five fixed patterns directly.
pub open spec fn matches_any_hardcoded(text: Seq<char>) -> bool {
    exists|k: int| 0 <= k < 5 && regex_match(#[trigger] hardcoded_pattern_spec(k), false, text)
}

/// The token `--`.
pub open spec fn tok_dd() -> Seq<char> {
    seq!['-', '-']
}

/// Whether the command's first token is `rm`, ASCII case-insensitively.
pub open spec fn tok_is_rm(t: Seq<char>) -> bool {
    t.len() == 2 && (t[0] == 'r' || t[0] == 'R') && (t[1] == 'm' || t[1] == 'M')
}

/// Splits the tokens after `rm` into flags and path operands, in order.
/// A token starting with `-` is a flag until a lone `--` has been seen;
/// everything after that marker — and any token not starting with `-` —
/// is a path operand, wherever it stands.
pub open spec fn classify(toks: Seq<Seq<char>>, past_double_dash: bool) -> (
    Seq<Seq<char>>,
    Seq<Seq<char>>,
)
    decreases toks.len(),
{
    if toks.len() == 0 {
        (Seq::empty(), Seq::empty())
    } else {
        let t = toks.first();
        if !past_double_dash && t == tok_dd() {
            let rest = classify(toks.drop_first(), true);
            (seq![t] + rest.0, rest.1)
        } else if !past_double_dash && t.len() > 0 && t[0] == '-' {
            let rest = classify(toks.drop_first(), past_double_dash);
            (seq![t] + rest.0, rest.1)
        } else {
            let rest = classify(toks.drop_first(), past_double_dash);
            (rest.0, seq![t] + rest.1)
        }
    }
}

/// The flag tokens joined, each followed by one space.
pub open spec fn flags_prefix(flags: Seq<Seq<char>>) -> Seq<char>
    decreases flags.len(),
{
    if flags.len() == 0 {
        Seq::empty()
    } else {
        flags_prefix(flags.drop_last()) + flags.last() + seq![' ']
    }
}

/// The literal `${HOME}`.
pub open spec fn brace_home() -> Seq<char> {
    seq!['$', '{', 'H', 'O', 'M', 'E', '}']
}

/// The literal `$HOME`.
pub open spec fn dollar_home() -> Seq<char> {
    seq!['$', 'H', 'O', 'M', 'E']
}

/// A `$HOME`/`${HOME}` operand with a `/`-suffix keeps the home token
/// untouched (it is not resolvable lexically) and normalizes the suffix;
/// a suffix that collapses to `/` leaves the bare home token.
pub open spec fn transform_home(p: Seq<char>, plen: int) -> Seq<char> {
    let suffix = p.skip(plen);
    if suffix.len() == 0 {
        p
    } else if suffix[0] == '/' {
        let ns = normalize_spec(suffix);
        if ns == seq!['/'] {
            p.take(plen)
        } else {
            p.take(plen) + ns
        }
    } else {
        p
    }
}

/// How one path operand is rewritten before re-testing: `$HOME`- and
/// `${HOME}`-prefixed operands keep the home token and normalize the
/// rest; other `$`-operands stay as they are; everything else is
/// normalized, with a relative operand that collapses to nothing
/// becoming `.`.
pub open spec fn transform_path(p: Seq<char>) -> Seq<char> {
    if p.len() > 0 && p[0] == '$' {
        if p.len() >= 7 && p.subrange(0, 7) == brace_home() {
            transform_home(p, 7)
        } else if p.len() >= 5 && p.subrange(0, 5) == dollar_home() {
            transform_home(p, 5)
        } else {
            p
        }
    } else {
        let n = normalize_spec(p);
        if n.len() == 0 && !(p.len() > 0 && p[0] == '/') {
            seq!['.']
        } else {
            n
        }
    }
}

/// The literal `rm `.
pub open spec fn rm_head() -> Seq<char> {
    seq!['r', 'm', ' ']
}

/// The pseudo-commands a command expands to: for a command whose first
/// token is `rm` (case-insensitively), one `rm <flags> <operand>` per
/// path operand, with the operand normalized; anything else expands to
/// nothing.
pub open spec fn expand_spec(cmd: Seq<char>) -> Seq<Seq<char>> {
    let toks = split_ws(cmd);
    if toks.len() == 0 || !tok_is_rm(toks.first()) {
        Seq::empty()
    } else {
        let fp = classify(toks.drop_first(), false);
        fp.1.map_values(|p: Seq<char>| rm_head() + flags_prefix(fp.0) + transform_path(p))
    }
}

/// Rewrites one path operand as [`transform_path`] says.
fn transform_path_exec(p: &str) -> (r: String)
    ensures
        r@ == transform_path(p@),
{
    let len = p.unicode_len();
    if len > 0 && p.get_char(0) == '$' {
        if len >= 7 && p.get_char(1) == '{' && p.get_char(2) == 'H' && p.get_char(3) == 'O'
            && p.get_char(4) == 'M' && p.get_char(5) == 'E' && p.get_char(6) == '}' {
            proof {
                assert(p@.subrange(0, 7) =~= brace_home());
            }
            transform_home_exec(p, 7)
        } else if len >= 5 && p.get_char(1) == 'H' && p.get_char(2) == 'O' && p.get_char(3) == 'M'
            && p.get_char(4) == 'E' {
            proof {
                assert(p@.subrange(0, 5) =~= dollar_home());
                if p@.len() >= 7 && p@.subrange(0, 7) == brace_home() {
                    assert(p@.subrange(0, 7)[1] == p@[1]);
                    assert(false);
                }
            }
            transform_home_exec(p, 5)
        } else {
            proof {
                if p@.len() >= 7 && p@.subrange(0, 7) == brace_home() {
                    assert(p@.subrange(0, 7)[1] == p@[1]);
                    assert(p@.subrange(0, 7)[2] == p@[2]);
                    assert(p@.subrange(0, 7)[3] == p@[3]);
                    assert(p@.subrange(0, 7)[4] == p@[4]);
                    assert(p@.subrange(0, 7)[5] == p@[5]);
                    assert(p@.subrange(0, 7)[6] == p@[6]);
                }
                if p@.len() >= 5 && p@.subrange(0, 5) == dollar_home() {
                    assert(p@.subrange(0, 5)[1] == p@[1]);
                    assert(p@.subrange(0, 5)[2] == p@[2]);
                    assert(p@.subrange(0, 5)[3] == p@[3]);
                    assert(p@.subrange(0, 5)[4] == p@[4]);
                }
            }
            String::from_str(p)
        }
    } else {
        let n = normalize_path(p);
        if n.unicode_len() == 0 && !(len > 0 && p.get_char(0) == '/') {
            let r = String::from_str(".");
            proof {
                reveal_strlit(".");
                assert(r@ =~= seq!['.']);
            }
            r
        } else {
            n
        }
    }
}

/// Rewrites a home-prefixed operand as [`transform_home`] says;
/// `plen` is the length of the home token.
fn transform_home_exec(p: &str, plen: usize) -> (r: String)
    requires
        plen <= p@.len(),
    ensures
        r@ == transform_home(p@, plen as int),
{
    let len = p.unicode_len();
    if len == plen {
        String::from_str(p)
    } else {
        proof {
            assert(p@.skip(plen as int).len() > 0);
            assert(p@.skip(plen as int)[0] == p@[plen as int]);
        }
        if p.get_char(plen) == '/' {
            let suffix = p.substring_char(plen, len);
            proof {
                assert(suffix@ =~= p@.skip(plen as int));
            }
            let ns = normalize_path(suffix);
            proof {
                reveal_strlit("/");
            }
            if str_eq_slash(ns.as_str()) {
                String::from_str(p.substring_char(0, plen))
            } else {
                let mut out = String::from_str(p.substring_char(0, plen));
                out.append(ns.as_str());
                out
            }
        } else {
            String::from_str(p)
        }
    }
}

/// Whether `s` is exactly `/`.
fn str_eq_slash(s: &str) -> (r: bool)
    ensures
        r == (s@ == seq!['/']),
{
    if s.unicode_len() == 1 && s.get_char(0) == '/' {
        proof {
            assert(s@ =~= seq!['/']);
        }
        true
    } else {
        false
    }
}

/// Rewrites a command into one pseudo-command per path operand, as
/// [`expand_spec`] says; a command that does not start with `rm`
/// produces nothing.
pub fn expand_rm_to_single_path_commands(command: &str) -> (r: Vec<String>)
    ensures
        r@.map_values(|s: String| s@) == expand_spec(command@),
{
    let toks_r = split_ws_ranges(command);
    let ghost toks = split_ws(command@);
    proof {
        assert(ranges_model(toks_r@, command@) == toks);
    }
    let mut results: Vec<String> = Vec::new();
    if toks_r.len() == 0 {
        proof {
            assert(results@.map_values(|s: String| s@) =~= expand_spec(command@));
        }
        return results;
    }
    let (fa, fb) = toks_r[0];
    proof {
        assert(toks.first() == command@.subrange(fa as int, fb as int));
    }
    let c0 = command.get_char(fa);
    let is_rm = fb - fa == 2 && (c0 == 'r' || c0 == 'R') && {
        let c1 = command.get_char(fa + 1);
        c1 == 'm' || c1 == 'M'
    };
    proof {
        let t = command@.subrange(fa as int, fb as int);
        assert(t.len() == fb - fa);
        if t.len() == 2 {
            assert(t[0] == command@[fa as int]);
            assert(t[1] == command@[fa as int + 1]);
        }
    }
    if !is_rm {
        proof {
            assert(results@.map_values(|s: String| s@) =~= expand_spec(command@));
        }
        return results;
    }

    let ghost rest = toks.drop_first();
    let mut flags: Vec<(usize, usize)> = Vec::new();
    let mut paths: Vec<(usize, usize)> = Vec::new();
    let mut past_dd = false;
    let mut i: usize = 1;
    proof {
        assert(rest.skip(0) =~= rest);
        assert(ranges_model(flags@, command@) + classify(rest.skip(0), past_dd).0 =~= classify(
            rest,
            false,
        ).0);
        assert(ranges_model(paths@, command@) + classify(rest.skip(0), past_dd).1 =~= classify(
            rest,
            false,
        ).1);
    }
    while i < toks_r.len()
        invariant
            toks == split_ws(command@),
            ranges_model(toks_r@, command@) == toks,
            forall|k: int| 0 <= k < toks_r@.len() ==> (#[trigger] toks_r@[k]).0 < toks_r@[k].1
                <= command@.len(),
            rest == toks.drop_first(),
            1 <= i <= toks_r@.len(),
            forall|k: int| 0 <= k < flags@.len() ==> (#[trigger] flags@[k]).0 < flags@[k].1
                <= command@.len(),
            forall|k: int| 0 <= k < paths@.len() ==> (#[trigger] paths@[k]).0 < paths@[k].1
                <= command@.len(),
            classify(rest, false).0 == ranges_model(flags@, command@) + classify(
                rest.skip(i - 1),
                past_dd,
            ).0,
            classify(rest, false).1 == ranges_model(paths@, command@) + classify(
                rest.skip(i - 1),
                past_dd,
            ).1,
        decreases toks_r@.len() - i,
    {
        let (a, b) = toks_r[i];
        let ghost t = command@.subrange(a as int, b as int);
        proof {
            assert(toks[i as int] == t);
            assert(rest[i - 1] == t);
            assert(rest.skip(i - 1).first() == t);
            assert(rest.skip(i - 1).drop_first() =~= rest.skip(i as int));
        }
        let is_dd = b - a == 2 && command.get_char(a) == '-' && command.get_char(a + 1) == '-';
        proof {
            assert(t.len() == b - a);
            if t.len() == 2 {
                assert(t[0] == command@[a as int]);
                assert(t[1] == command@[a as int + 1]);
            }
            if t == tok_dd() {
                assert(t.len() == 2 && t[0] == '-' && t[1] == '-');
            }
            if is_dd {
                assert(t =~= tok_dd());
            }
            assert(is_dd == (t == tok_dd()));
        }
        if !past_dd && is_dd {
            flags.push((a, b));
            past_dd = true;
            proof {
                assert(ranges_model(flags@, command@) =~= ranges_model(
                    flags@.drop_last(),
                    command@,
                ).push(t));
                assert(ranges_model(flags@.drop_last(), command@) + (seq![t] + classify(
                    rest.skip(i as int),
                    true,
                ).0) =~= ranges_model(flags@, command@) + classify(rest.skip(i as int), true).0);
            }
        } else if !past_dd && command.get_char(a) == '-' {
            proof {
                assert(t[0] == command@[a as int]);
            }
            flags.push((a, b));
            proof {
                assert(ranges_model(flags@, command@) =~= ranges_model(
                    flags@.drop_last(),
                    command@,
                ).push(t));
                assert(ranges_model(flags@.drop_last(), command@) + (seq![t] + classify(
                    rest.skip(i as int),
                    past_dd,
                ).0) =~= ranges_model(flags@, command@) + classify(rest.skip(i as int), past_dd).0);
            }
        } else {
            proof {
                assert(t[0] == command@[a as int]);
            }
            paths.push((a, b));
            proof {
                assert(ranges_model(paths@, command@) =~= ranges_model(
                    paths@.drop_last(),
                    command@,
                ).push(t));
                assert(ranges_model(paths@.drop_last(), command@) + (seq![t] + classify(
                    rest.skip(i as int),
                    past_dd,
                ).1) =~= ranges_model(paths@, command@) + classify(rest.skip(i as int), past_dd).1);
            }
        }
        i = i + 1;
    }
    let ghost fp = classify(rest, false);
    proof {
        assert(rest.skip(i - 1) =~= Seq::<Seq<char>>::empty());
        assert(fp.0 =~= ranges_model(flags@, command@));
        assert(fp.1 =~= ranges_model(paths@, command@));
    }

    let mut fs = String::new();
    let mut k: usize = 0;
    proof {
        assert(fs@ =~= flags_prefix(fp.0.take(0)));
    }
    while k < flags.len()
        invariant
            forall|t: int| 0 <= t < flags@.len() ==> (#[trigger] flags@[t]).0 < flags@[t].1
                <= command@.len(),
            fp.0 == ranges_model(flags@, command@),
            k <= flags@.len(),
            fs@ == flags_prefix(fp.0.take(k as int)),
        decreases flags@.len() - k,
    {
        let (a, b) = flags[k];
        proof {
            assert(fp.0.take(k + 1).drop_last() =~= fp.0.take(k as int));
            assert(fp.0.take(k + 1).last() == command@.subrange(a as int, b as int));
        }
        let seg = command.substring_char(a, b);
        fs.append(seg);
        fs.append(" ");
        proof {
            reveal_strlit(" ");
            assert(" "@ =~= seq![' ']);
            assert(fs@ =~= flags_prefix(fp.0.take(k + 1)));
        }
        k = k + 1;
    }
    proof {
        assert(fp.0.take(flags@.len() as int) =~= fp.0);
    }

    let ghost expanded = expand_spec(command@);
    proof {
        assert(expanded == fp.1.map_values(
            |p: Seq<char>| rm_head() + flags_prefix(fp.0) + transform_path(p),
        ));
    }
    let mut m: usize = 0;
    proof {
        assert(results@.map_values(|s: String| s@) =~= expanded.take(0));
    }
    while m < paths.len()
        invariant
            forall|t: int| 0 <= t < paths@.len() ==> (#[trigger] paths@[t]).0 < paths@[t].1
                <= command@.len(),
            fp.1 == ranges_model(paths@, command@),
            fs@ == flags_prefix(fp.0),
            expanded == fp.1.map_values(
                |p: Seq<char>| rm_head() + flags_prefix(fp.0) + transform_path(p),
            ),
            m <= paths@.len(),
            results@.map_values(|s: String| s@) == expanded.take(m as int),
        decreases paths@.len() - m,
    {
        let (a, b) = paths[m];
        proof {
            assert(fp.1[m as int] == command@.subrange(a as int, b as int));
        }
        let mut cmd = String::from_str("rm ");
        proof {
            reveal_strlit("rm ");
            assert(cmd@ =~= rm_head());
        }
        cmd.append(fs.as_str());
        let operand = command.substring_char(a, b);
        let transformed = transform_path_exec(operand);
        cmd.append(transformed.as_str());
        let ghost prev = results@;
        results.push(cmd);
        proof {
            assert(results@ =~= prev.push(cmd));
            assert(results@.map_values(|s: String| s@) =~= prev.map_values(|s: String| s@).push(
                cmd@,
            ));
            assert(cmd@ == expanded[m as int]);
            assert(results@.map_values(|s: String| s@) =~= expanded.take(m + 1));
        }
        m = m + 1;
    }
    proof {
        assert(expanded.take(paths@.len() as int) =~= expanded);
    }
    results
}

/// Whether the fixed rules catch `cmd`: either the raw command matches a
/// fixed pattern, or one of its single-path rewritings does.
pub open spec fn hardcoded_blocks(cmd: Seq<char>) -> bool {
    matches_any_hardcoded(cmd) || exists|i: int|
        0 <= i < expand_spec(cmd).len() && matches_any_hardcoded(#[trigger] expand_spec(cmd)[i])
}

/// Tests `text` against each compiled fixed rule.
fn matches_any_rule(text: &str, rules: &HardcodedSecurityRules) -> (r: bool)
    requires
        rules.wf(),
    ensures
        r == matches_any_hardcoded(text@),
{
    let mut k: usize = 0;
    proof {
        assert(rules.terminal_deny@.len() == hardcoded_models().len());
    }
    while k < rules.terminal_deny.len()
        invariant
            rules.wf(),
            rules.terminal_deny@.len() == 5,
            k <= 5,
            forall|j: int|
                0 <= j < k ==> !regex_match(#[trigger] hardcoded_pattern_spec(j), false, text@),
        decreases 5 - k,
    {
        proof {
            assert(rules.terminal_deny@.map_values(|r: CompiledRegex| r@)[k as int]
                == hardcoded_models()[k as int]);
        }
        if rules.terminal_deny[k].is_match(text) {
            return true;
        }
        k = k + 1;
    }
    false
}

impl HardcodedSecurityRules {
    /// Whether the fixed rules catch `command`, directly or through one
    /// of its single-path rewritings.
    pub fn matches(&self, command: &str) -> (r: bool)
        requires
            self.wf(),
        ensures
            r == hardcoded_blocks(command@),
    {
        matches_hardcoded_patterns(command, self)
    }
}

/// Tests a command against the fixed rules, both the raw string and each
/// of its single-path rewritings.
pub fn matches_hardcoded_patterns(command: &str, rules: &HardcodedSecurityRules) -> (r: bool)
    requires
        rules.wf(),
    ensures
        r == hardcoded_blocks(command@),
{
    if matches_any_rule(command, rules) {
        return true;
    }
    let expanded = expand_rm_to_single_path_commands(command);
    let ghost emodel = expand_spec(command@);
    let mut i: usize = 0;
    while i < expanded.len()
        invariant
            rules.wf(),
            expanded@.map_values(|s: String| s@) == emodel,
            emodel == expand_spec(command@),
            i <= expanded@.len(),
            forall|j: int| 0 <= j < i ==> !matches_any_hardcoded(#[trigger] emodel[j]),
        decreases expanded@.len() - i,
    {
        proof {
            assert(emodel[i as int] == expanded@[i as int]@);
        }
        if matches_any_rule(expanded[i].as_str(), rules) {
            return true;
        }
        i = i + 1;
    }
    false
}

/// The distinguished name of the shell-execution tool.
pub open spec fn terminal_tool() -> Seq<char> {
    "terminal"@
}

/// The fixed reason attached to a denial by the built-in rules.
pub open spec fn hardcoded_denial_msg() -> Seq<char> {
    "Blocked by built-in security rule. This operation is considered too harmful to be allowed, and cannot be overridden by settings."@
}

/// Whether any command in the list is caught by the fixed rules.
pub open spec fn any_blocked(cmds: Seq<Seq<char>>) -> bool {
    exists|i: int| 0 <= i < cmds.len() && hardcoded_blocks(#[trigger] cmds[i])
}

/// Whether any of the extracted sub-commands is caught by the fixed rules.
pub open spec fn extracted_hit(extracted: Option<Seq<Seq<char>>>) -> bool {
    match extracted {
        Some(cmds) => any_blocked(cmds),
        None => false,
    }
}

/// Whether the built-in check fires: only for the shell-execution tool,
/// when the raw input or any extracted sub-command is caught.
pub open spec fn hardcoded_check_spec(
    tool: Seq<char>,
    input: Seq<char>,
    extracted: Option<Seq<Seq<char>>>,
) -> bool {
    tool == terminal_tool() && (hardcoded_blocks(input) || extracted_hit(extracted))
}

/// Checks a tool invocation against the fixed rules; returns the fixed
/// denial reason when they fire. Applies only to the shell-execution
/// tool. `extracted_commands` optionally carries the parsed
/// sub-commands, so that a dangerous link of a chain is caught too.
pub fn check_hardcoded_security_rules(
    tool_name: &str,
    input: &str,
    extracted_commands: Option<&Vec<String>>,
    rules: &HardcodedSecurityRules,
) -> (r: Option<String>)
    requires
        rules.wf(),
    ensures
        r is Some <==> hardcoded_check_spec(
            tool_name@,
            input@,
            match extracted_commands {
                Some(cmds) => Some(cmds@.map_values(|s: String| s@)),
                None => None,
            },
        ),
        r matches Some(msg) ==> msg@ == hardcoded_denial_msg(),
{
    if !crate::text::str_eq(tool_name, "terminal") {
        return None;
    }
    if matches_hardcoded_patterns(input, rules) {
        return Some(denial_message());
    }
    match extracted_commands {
        Some(commands) => {
            let ghost cmodel = commands@.map_values(|s: String| s@);
            let mut i: usize = 0;
            while i < commands.len()
                invariant
                    rules.wf(),
                    tool_name@ == terminal_tool(),
                    extracted_commands == Some(commands),
                    cmodel == commands@.map_values(|s: String| s@),
                    i <= commands@.len(),
                    forall|j: int| 0 <= j < i ==> !hardcoded_blocks(#[trigger] cmodel[j]),
                decreases commands@.len() - i,
            {
                proof {
                    assert(cmodel[i as int] == commands@[i as int]@);
                }
                if matches_hardcoded_patterns(commands[i].as_str(), rules) {
                    proof {
                        let ghost idx = i as int;
                        assert(0 <= idx < cmodel.len() && hardcoded_blocks(cmodel[idx]));
                        assert(any_blocked(cmodel));
                        assert(extracted_hit(Some(cmodel)));
                    }
                    return Some(denial_message());
                }
                i = i + 1;
            }
            None
        },
        None => None,
    }
}

/// The fixed denial reason as an owned string.
pub fn denial_message() -> (r: String)
    ensures
        r@ == hardcoded_denial_msg(),
{
    String::from_str(
        "Blocked by built-in security rule. This operation is considered too harmful to be allowed, and cannot be overridden by settings.",
    )
}

} // verus!
