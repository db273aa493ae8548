//! Decomposition of a shell command line into the ordered list of
//! sub-commands a POSIX-chaining shell would execute: splitting on `;`,
//! `&&`, `||`, `|`, `|&`, backgrounding `&` and newlines, and descending
//! into command and process substitutions `` `...` ``, `$(...)`, `<(...)`
//! and `>(...)`. Quoting is respected: operators inside quotes are
//! literal, substitutions stay live inside double quotes, and a
//! backslash escapes the character after it. Malformed syntax yields
//! "unparseable" (`None`), which callers treat as the most conservative
//! outcome.
//!
//! The extractor is deliberately lexical: a construct it does not model
//! (an unbalanced delimiter, a bare parenthesis, an unterminated quote)
//! makes the whole input unparseable rather than silently passing a
//! sub-command through unseen.

use vstd::prelude::*;
use crate::text::{trim_spec, trimmed_range};

verus! {

/// Scanning mode: the pending first character of a two-character
/// operator (`&&`, `||`, `|&`) or of a substitution opener (`$(`, `<(`,
/// `>(`); or the quoting context — single quotes, double quotes, a
/// `$` seen inside double quotes, and the character after a backslash
/// (outside and inside double quotes).
#[derive(Debug, Clone, Copy, PartialEq, Eq, Structural)]
pub enum ScanMode {
    Norm,
    Amp,
    Pipe,
    Dollar,
    Lt,
    Gt,
    Single,
    Double,
    DoubleDollar,
    Esc,
    DoubleEsc,
}

/// What opened the current nesting level.
#[derive(Debug, Clone, Copy, PartialEq, Eq, Structural)]
pub enum FrameKind {
    Top,
    Paren,
    Backtick,
}

/// One nesting level at specification level: the raw text of the
/// current command, whether a hard operator still awaits its right
/// operand, what opened the level, and the mode to return to when the
/// level closes (a substitution can be opened inside double quotes).
#[verifier::ext_equal]
pub ghost struct GFrame {
    pub cur: Seq<char>,
    pub pending_hard: bool,
    pub kind: FrameKind,
    pub resume: ScanMode,
}

/// The whole scanner state at specification level.
#[verifier::ext_equal]
pub ghost struct GScan {
    pub stack: Seq<GFrame>,
    pub done: Seq<Seq<char>>,
    pub mode: ScanMode,
    pub failed: bool,
}

/// The scanner before any character: one top-level frame, nothing
/// emitted.
pub open spec fn init_scan() -> GScan {
    GScan {
        stack: seq![
            GFrame {
                cur: Seq::empty(),
                pending_hard: false,
                kind: FrameKind::Top,
                resume: ScanMode::Norm,
            },
        ],
        done: Seq::empty(),
        mode: ScanMode::Norm,
        failed: false,
    }
}

/// The state marked unparseable; absorbing.
pub open spec fn scan_failed(st: GScan) -> GScan {
    GScan { failed: true, ..st }
}

/// The innermost frame.
pub open spec fn top_frame(st: GScan) -> GFrame {
    st.stack.last()
}

/// Replaces the innermost frame.
pub open spec fn set_top(st: GScan, f: GFrame) -> GScan {
    GScan { stack: st.stack.update(st.stack.len() - 1, f), ..st }
}

/// Appends `c` to the innermost frame's raw text.
pub open spec fn top_append(st: GScan, c: char) -> GScan {
    set_top(
        st,
        GFrame {
            cur: top_frame(st).cur.push(c),
            pending_hard: top_frame(st).pending_hard,
            kind: top_frame(st).kind,
            resume: top_frame(st).resume,
        },
    )
}

/// Appends `c` to the raw text of every frame but the innermost: outer
/// frames keep the literal text of the substitutions nested in them.
pub open spec fn low_append(st: GScan, c: char) -> GScan {
    GScan {
        stack: Seq::new(
            st.stack.len(),
            |k: int|
                if k < st.stack.len() - 1 {
                    GFrame {
                        cur: st.stack[k].cur.push(c),
                        pending_hard: st.stack[k].pending_hard,
                        kind: st.stack[k].kind,
                        resume: st.stack[k].resume,
                    }
                } else {
                    st.stack[k]
                },
        ),
        ..st
    }
}

/// Ends the current command at a soft separator (`;`, newline,
/// backgrounding `&`): a non-empty command is emitted; an empty one is
/// skipped, unless a hard operator still awaited its operand.
pub open spec fn soft_term(st: GScan) -> GScan {
    let t = trim_spec(top_frame(st).cur);
    if t.len() == 0 {
        if top_frame(st).pending_hard {
            scan_failed(st)
        } else {
            set_top(
                st,
                GFrame {
                    cur: Seq::empty(),
                    pending_hard: false,
                    kind: top_frame(st).kind,
                    resume: top_frame(st).resume,
                },
            )
        }
    } else {
        GScan {
            done: st.done.push(t),
            ..set_top(
                st,
                GFrame {
                    cur: Seq::empty(),
                    pending_hard: false,
                    kind: top_frame(st).kind,
                    resume: top_frame(st).resume,
                },
            )
        }
    }
}

/// Ends the current command at a hard operator (`&&`, `||`, `|`, `|&`),
/// whose left operand must be non-empty; the right operand is now owed.
pub open spec fn hard_term(st: GScan) -> GScan {
    let t = trim_spec(top_frame(st).cur);
    if t.len() == 0 {
        scan_failed(st)
    } else {
        GScan {
            done: st.done.push(t),
            ..set_top(
                st,
                GFrame {
                    cur: Seq::empty(),
                    pending_hard: true,
                    kind: top_frame(st).kind,
                    resume: top_frame(st).resume,
                },
            )
        }
    }
}

/// Closes the current substitution: its last command is emitted and the
/// level is popped; a dangling hard operator makes the input
/// unparseable.
pub open spec fn close_frame(st: GScan) -> GScan {
    let t = trim_spec(top_frame(st).cur);
    if top_frame(st).pending_hard && t.len() == 0 {
        scan_failed(st)
    } else if t.len() > 0 {
        GScan { stack: st.stack.drop_last(), done: st.done.push(t), ..st }
    } else {
        GScan { stack: st.stack.drop_last(), ..st }
    }
}

/// Opens a substitution: the opening character joins the outer frame's
/// raw text and a fresh level begins, remembering the mode to return to
/// when it closes.
pub open spec fn open_frame(st: GScan, c: char, kind: FrameKind, resume: ScanMode) -> GScan {
    let st1 = top_append(st, c);
    GScan {
        stack: st1.stack.push(
            GFrame { cur: Seq::empty(), pending_hard: false, kind, resume },
        ),
        ..st1
    }
}

/// The state with its mode replaced.
pub open spec fn with_mode(st: GScan, m: ScanMode) -> GScan {
    GScan { mode: m, ..st }
}

/// One character handled in normal mode.
pub open spec fn norm_char(st: GScan, c: char) -> GScan {
    if st.failed {
        st
    } else if c == ';' || c == '\n' {
        with_mode(soft_term(st), ScanMode::Norm)
    } else if c == '&' {
        with_mode(st, ScanMode::Amp)
    } else if c == '|' {
        with_mode(st, ScanMode::Pipe)
    } else if c == '$' {
        with_mode(top_append(st, c), ScanMode::Dollar)
    } else if c == '<' {
        with_mode(top_append(st, c), ScanMode::Lt)
    } else if c == '>' {
        with_mode(top_append(st, c), ScanMode::Gt)
    } else if c == '\'' {
        with_mode(top_append(st, c), ScanMode::Single)
    } else if c == '"' {
        with_mode(top_append(st, c), ScanMode::Double)
    } else if c == '\\' {
        with_mode(top_append(st, c), ScanMode::Esc)
    } else if c == '`' {
        if top_frame(st).kind == FrameKind::Backtick {
            with_mode(close_frame(st), top_frame(st).resume)
        } else {
            with_mode(open_frame(st, c, FrameKind::Backtick, ScanMode::Norm), ScanMode::Norm)
        }
    } else if c == '(' {
        scan_failed(st)
    } else if c == ')' {
        if top_frame(st).kind == FrameKind::Paren {
            with_mode(close_frame(st), top_frame(st).resume)
        } else {
            scan_failed(st)
        }
    } else {
        with_mode(top_append(st, c), ScanMode::Norm)
    }
}

/// One character handled inside double quotes: operators are literal,
/// but `$(` and backtick substitutions stay live, as they do in a
/// POSIX shell.
pub open spec fn dq_char(st: GScan, c: char) -> GScan {
    if st.failed {
        st
    } else if c == '"' {
        with_mode(top_append(st, c), ScanMode::Norm)
    } else if c == '\\' {
        with_mode(top_append(st, c), ScanMode::DoubleEsc)
    } else if c == '$' {
        with_mode(top_append(st, c), ScanMode::DoubleDollar)
    } else if c == '`' {
        if top_frame(st).kind == FrameKind::Backtick {
            with_mode(close_frame(st), top_frame(st).resume)
        } else {
            with_mode(open_frame(st, c, FrameKind::Backtick, ScanMode::Double), ScanMode::Norm)
        }
    } else {
        with_mode(top_append(st, c), ScanMode::Double)
    }
}

/// One step of the scanner: the character first joins the raw text of
/// every outer frame, then acts at the innermost level, resolving a
/// pending operator or opener first.
pub open spec fn scan_step(st: GScan, c: char) -> GScan {
    if st.failed {
        st
    } else {
        let st1 = low_append(st, c);
        match st.mode {
            ScanMode::Norm => norm_char(st1, c),
            ScanMode::Amp => {
                if c == '&' {
                    with_mode(hard_term(st1), ScanMode::Norm)
                } else {
                    norm_char(with_mode(soft_term(st1), ScanMode::Norm), c)
                }
            },
            ScanMode::Pipe => {
                if c == '&' || c == '|' {
                    with_mode(hard_term(st1), ScanMode::Norm)
                } else {
                    norm_char(with_mode(hard_term(st1), ScanMode::Norm), c)
                }
            },
            ScanMode::Dollar => {
                if c == '(' {
                    with_mode(open_frame(st1, c, FrameKind::Paren, ScanMode::Norm), ScanMode::Norm)
                } else {
                    norm_char(with_mode(st1, ScanMode::Norm), c)
                }
            },
            ScanMode::Lt => {
                if c == '(' {
                    with_mode(open_frame(st1, c, FrameKind::Paren, ScanMode::Norm), ScanMode::Norm)
                } else {
                    norm_char(with_mode(st1, ScanMode::Norm), c)
                }
            },
            ScanMode::Gt => {
                if c == '(' {
                    with_mode(open_frame(st1, c, FrameKind::Paren, ScanMode::Norm), ScanMode::Norm)
                } else {
                    norm_char(with_mode(st1, ScanMode::Norm), c)
                }
            },
            ScanMode::DoubleDollar => {
                if c == '(' {
                    with_mode(
                        open_frame(st1, c, FrameKind::Paren, ScanMode::Double),
                        ScanMode::Norm,
                    )
                } else {
                    dq_char(with_mode(st1, ScanMode::Double), c)
                }
            },
            ScanMode::Single => {
                if c == '\'' {
                    with_mode(top_append(st1, c), ScanMode::Norm)
                } else {
                    with_mode(top_append(st1, c), ScanMode::Single)
                }
            },
            ScanMode::Double => dq_char(st1, c),
            ScanMode::Esc => with_mode(top_append(st1, c), ScanMode::Norm),
            ScanMode::DoubleEsc => with_mode(top_append(st1, c), ScanMode::Double),
        }
    }
}

/// The scanner run over all of `s`.
pub open spec fn scan_all(s: Seq<char>) -> GScan
    decreases s.len(),
{
    if s.len() == 0 {
        init_scan()
    } else {
        scan_step(scan_all(s.drop_last()), s.last())
    }
}

/// The end of input: a dangling `|`, an unclosed substitution or an
/// unterminated quote or escape is unparseable; a trailing `&`
/// backgrounds the last command; the final command, if non-empty, is
/// emitted.
pub open spec fn finalize_scan(st0: GScan) -> Option<Seq<Seq<char>>> {
    let st = if st0.failed {
        st0
    } else if st0.mode == ScanMode::Pipe {
        scan_failed(st0)
    } else if st0.mode == ScanMode::Amp {
        soft_term(st0)
    } else if st0.mode == ScanMode::Single || st0.mode == ScanMode::Double || st0.mode
        == ScanMode::DoubleDollar || st0.mode == ScanMode::Esc || st0.mode == ScanMode::DoubleEsc {
        scan_failed(st0)
    } else {
        st0
    };
    if st.failed {
        None
    } else if st.stack.len() != 1 {
        None
    } else {
        let t = trim_spec(top_frame(st).cur);
        if top_frame(st).pending_hard && t.len() == 0 {
            None
        } else if t.len() > 0 {
            Some(st.done.push(t))
        } else {
            Some(st.done)
        }
    }
}

/// The ordered sub-commands of `s`, or `None` when `s` cannot be
/// decomposed. Each sub-command is trimmed; commands inside a
/// substitution precede the command that contains them.
pub open spec fn extract_spec(s: Seq<char>) -> Option<Seq<Seq<char>>> {
    finalize_scan(scan_all(s))
}

/// Once a prefix is unparseable, the whole input is.
proof fn lemma_failed_absorbing(s: Seq<char>, i: int)
    requires
        0 <= i <= s.len(),
        scan_all(s.take(i)).failed,
    ensures
        scan_all(s).failed,
    decreases s.len() - i,
{
    if i < s.len() {
        assert(s.take(i + 1).drop_last() =~= s.take(i));
        assert(s.take(i + 1).last() == s[i]);
        lemma_failed_absorbing(s, i + 1);
    } else {
        assert(s.take(i) =~= s);
    }
}

/// One nesting level at runtime: only the start of the current
/// command's text is tracked; the text itself is a range of the input.
#[derive(Clone, Copy)]
pub struct EFrame {
    pub start: usize,
    pub pending_hard: bool,
    pub kind: FrameKind,
    pub resume: ScanMode,
}

/// The pending-operator modes hold one character back from the current
/// command's text.
pub open spec fn mode_adj(m: ScanMode) -> int {
    if m == ScanMode::Amp || m == ScanMode::Pipe {
        1
    } else {
        0
    }
}

/// A runtime frame agrees with a specification frame whose raw text is
/// the input from `start` to `end`.
pub open spec fn frame_match(e: EFrame, g: GFrame, s: Seq<char>, end: int) -> bool {
    g.pending_hard == e.pending_hard && g.kind == e.kind && g.resume == e.resume && e.start <= end
        <= s.len() && g.cur == s.subrange(e.start as int, end)
}

/// The runtime stack agrees with the specification stack: the innermost
/// frame's text ends at `top_end`, every outer frame's at `low_end`.
pub open spec fn frames_match(
    ef: Seq<EFrame>,
    gf: Seq<GFrame>,
    s: Seq<char>,
    top_end: int,
    low_end: int,
) -> bool {
    ef.len() == gf.len() && (forall|k: int|
        0 <= k < ef.len() ==> frame_match(
            #[trigger] ef[k],
            gf[k],
            s,
            if k == ef.len() - 1 {
                top_end
            } else {
                low_end
            },
        ))
}

/// After the character joins every outer frame, those frames' texts
/// reach one position further.
proof fn lemma_low_append_match(ef: Seq<EFrame>, st: GScan, s: Seq<char>, top_end: int, i: int)
    requires
        0 <= i < s.len(),
        ef.len() == st.stack.len(),
        ef.len() >= 1,
        frames_match(ef, st.stack, s, top_end, i),
    ensures
        frames_match(ef, low_append(st, s[i]).stack, s, top_end, i + 1),
{
    let gf = low_append(st, s[i]).stack;
    assert forall|k: int| 0 <= k < ef.len() implies frame_match(
        #[trigger] ef[k],
        gf[k],
        s,
        if k == ef.len() - 1 {
            top_end
        } else {
            i + 1
        },
    ) by {
        assert(frame_match(
            ef[k],
            st.stack[k],
            s,
            if k == ef.len() - 1 {
                top_end
            } else {
                i
            },
        ));
        if k < ef.len() - 1 {
            assert(s.subrange(ef[k].start as int, i).push(s[i]) =~= s.subrange(
                ef[k].start as int,
                i + 1,
            ));
        }
    }
}

/// Pushes the trimmed content of `[a, b)` of `input` as one emitted
/// command.
fn emit_command(done: &mut Vec<String>, input: &str, a: usize, b: usize)
    requires
        a <= b <= input@.len(),
    ensures
        final(done)@.map_values(|x: String| x@) == old(done)@.map_values(|x: String| x@).push(
            input@.subrange(a as int, b as int),
        ),
{
    let ghost prev = done@;
    let s = String::from_str(input.substring_char(a, b));
    done.push(s);
    proof {
        assert(done@.map_values(|x: String| x@) =~= prev.map_values(|x: String| x@).push(
            input@.subrange(a as int, b as int),
        ));
    }
}

/// Replaces the innermost runtime frame.
fn set_top_exec(stack: &mut Vec<EFrame>, f: EFrame)
    requires
        old(stack)@.len() > 0,
    ensures
        final(stack)@ == old(stack)@.update(old(stack)@.len() - 1, f),
{
    let idx = stack.len() - 1;
    stack[idx] = f;
}


/// Splits `input` into the ordered sub-commands a POSIX-chaining shell
/// would execute, or returns `None` when the syntax cannot be
/// decomposed. Sub-commands inside substitutions are returned as
/// commands of their own, before the command that contains them.
#[verifier::rlimit(100)]
pub fn extract_commands(input: &str) -> (r: Option<Vec<String>>)
    ensures
        r is Some <==> extract_spec(input@) is Some,
        r matches Some(v) ==> extract_spec(input@) == Some(v@.map_values(|s: String| s@)),
{
    let len = input.unicode_len();
    let mut stack: Vec<EFrame> = Vec::new();
    stack.push(EFrame {
        start: 0,
        pending_hard: false,
        kind: FrameKind::Top,
        resume: ScanMode::Norm,
    });
    let mut done: Vec<String> = Vec::new();
    let mut mode = ScanMode::Norm;
    let mut i: usize = 0;
    proof {
        assert(input@.take(0) =~= Seq::<char>::empty());
        assert(frames_match(stack@, init_scan().stack, input@, 0, 0)) by {
            assert(input@.subrange(0, 0) =~= Seq::<char>::empty());
        }
        assert(done@.map_values(|x: String| x@) =~= Seq::<Seq<char>>::empty());
    }
    while i < len
        invariant
            len == input@.len(),
            i <= len,
            stack@.len() >= 1,
            stack@[0].kind == FrameKind::Top,
            forall|k: int| 1 <= k < stack@.len() ==> (#[trigger] stack@[k]).kind != FrameKind::Top,
            forall|k: int| 0 <= k < stack@.len() ==> mode_adj((#[trigger] stack@[k]).resume) == 0,
            !scan_all(input@.take(i as int)).failed,
            scan_all(input@.take(i as int)).mode == mode,
            scan_all(input@.take(i as int)).done == done@.map_values(|x: String| x@),
            frames_match(
                stack@,
                scan_all(input@.take(i as int)).stack,
                input@,
                i - mode_adj(mode),
                i as int,
            ),
        decreases len - i,
    {
        let c = input.get_char(i);
        let ghost st = scan_all(input@.take(i as int));
        let ghost stp = scan_all(input@.take(i + 1));
        proof {
            assert(input@.take(i + 1).drop_last() =~= input@.take(i as int));
            assert(input@.take(i + 1).last() == input@[i as int]);
            assert(stp == scan_step(st, c));
            assert(stack@.len() == st.stack.len());
            lemma_low_append_match(stack@, st, input@, i - mode_adj(mode), i as int);
        }
        let ghost st1 = low_append(st, c);
        proof {
            assert(st1.done == st.done);
            assert(st1.stack.len() == st.stack.len());
            assert(top_frame(st1) == top_frame(st));
        }
        let n = stack.len();
        let top = stack[n - 1];
        proof {
            assert(frame_match(stack@[n - 1], st1.stack[n - 1], input@, i - mode_adj(mode)));
        }

        // Phase 1: resolve a pending two-character operator, opener,
        // quote or escape.
        let mut fall_norm = false;
        let mut fall_dq = false;
        let ghost mut mid: GScan = st1;
        if mode == ScanMode::Amp {
            if c == '&' {
                // `&&`: the command before it must be non-empty.
                let (ta, tb) = trimmed_range(input, top.start, i - 1);
                if ta == tb {
                    proof {
                        assert(stp.failed);
                        lemma_failed_absorbing(input@, i + 1);
                    }
                    return None;
                }
                emit_command(&mut done, input, ta, tb);
                set_top_exec(&mut stack, EFrame {
                    start: i + 1,
                    pending_hard: true,
                    kind: top.kind,
                    resume: top.resume,
                });
                mode = ScanMode::Norm;
                proof {
                    assert(stp == with_mode(hard_term(st1), ScanMode::Norm));
                    assert(frames_match(stack@, stp.stack, input@, i + 1, i + 1)) by {
                        assert forall|k: int| 0 <= k < stack@.len() implies frame_match(
                            #[trigger] stack@[k],
                            stp.stack[k],
                            input@,
                            i + 1,
                        ) by {
                            if k < stack@.len() - 1 {
                                assert(frame_match(stack@[k], st1.stack[k], input@, i + 1));
                            } else {
                                assert(input@.subrange(i + 1, i + 1) =~= Seq::<char>::empty());
                            }
                        }
                    }
                }
            } else {
                // A single `&`: the command before it is backgrounded.
                let (ta, tb) = trimmed_range(input, top.start, i - 1);
                if ta == tb && top.pending_hard {
                    proof {
                        assert(soft_term(st1).failed);
                        assert(stp.failed);
                        lemma_failed_absorbing(input@, i + 1);
                    }
                    return None;
                }
                if tb > ta {
                    emit_command(&mut done, input, ta, tb);
                }
                set_top_exec(&mut stack, EFrame {
                    start: i,
                    pending_hard: false,
                    kind: top.kind,
                    resume: top.resume,
                });
                mode = ScanMode::Norm;
                fall_norm = true;
                proof {
                    mid = with_mode(soft_term(st1), ScanMode::Norm);
                    assert(stp == norm_char(mid, c));
                    assert(!mid.failed);
                    assert(mid.done == done@.map_values(|x: String| x@));
                    assert(frames_match(stack@, mid.stack, input@, i as int, i + 1)) by {
                        assert forall|k: int| 0 <= k < stack@.len() implies frame_match(
                            #[trigger] stack@[k],
                            mid.stack[k],
                            input@,
                            if k == stack@.len() - 1 {
                                i as int
                            } else {
                                i + 1
                            },
                        ) by {
                            if k < stack@.len() - 1 {
                                assert(frame_match(stack@[k], st1.stack[k], input@, i + 1));
                            } else {
                                assert(input@.subrange(i as int, i as int) =~= Seq::<
                                    char,
                                >::empty());
                            }
                        }
                    }
                }
            }
        } else if mode == ScanMode::Pipe {
            // `|`, `||` and `|&` all end the command before them, which
            // must be non-empty.
            let (ta, tb) = trimmed_range(input, top.start, i - 1);
            if ta == tb {
                proof {
                    assert(hard_term(st1).failed);
                    assert(stp.failed);
                    lemma_failed_absorbing(input@, i + 1);
                }
                return None;
            }
            emit_command(&mut done, input, ta, tb);
            if c == '&' || c == '|' {
                set_top_exec(&mut stack, EFrame {
                    start: i + 1,
                    pending_hard: true,
                    kind: top.kind,
                    resume: top.resume,
                });
                mode = ScanMode::Norm;
                proof {
                    assert(stp == with_mode(hard_term(st1), ScanMode::Norm));
                    assert(frames_match(stack@, stp.stack, input@, i + 1, i + 1)) by {
                        assert forall|k: int| 0 <= k < stack@.len() implies frame_match(
                            #[trigger] stack@[k],
                            stp.stack[k],
                            input@,
                            i + 1,
                        ) by {
                            if k < stack@.len() - 1 {
                                assert(frame_match(stack@[k], st1.stack[k], input@, i + 1));
                            } else {
                                assert(input@.subrange(i + 1, i + 1) =~= Seq::<char>::empty());
                            }
                        }
                    }
                }
            } else {
                set_top_exec(&mut stack, EFrame {
                    start: i,
                    pending_hard: true,
                    kind: top.kind,
                    resume: top.resume,
                });
                mode = ScanMode::Norm;
                fall_norm = true;
                proof {
                    mid = with_mode(hard_term(st1), ScanMode::Norm);
                    assert(stp == norm_char(mid, c));
                    assert(!mid.failed);
                    assert(mid.done == done@.map_values(|x: String| x@));
                    assert(frames_match(stack@, mid.stack, input@, i as int, i + 1)) by {
                        assert forall|k: int| 0 <= k < stack@.len() implies frame_match(
                            #[trigger] stack@[k],
                            mid.stack[k],
                            input@,
                            if k == stack@.len() - 1 {
                                i as int
                            } else {
                                i + 1
                            },
                        ) by {
                            if k < stack@.len() - 1 {
                                assert(frame_match(stack@[k], st1.stack[k], input@, i + 1));
                            } else {
                                assert(input@.subrange(i as int, i as int) =~= Seq::<
                                    char,
                                >::empty());
                            }
                        }
                    }
                }
            }
        } else if mode == ScanMode::Dollar || mode == ScanMode::Lt || mode == ScanMode::Gt
            || mode == ScanMode::DoubleDollar {
            if c == '(' {
                // `$(`, `<(` or `>(`: descend into the substitution,
                // remembering the context to return to.
                let resume = if mode == ScanMode::DoubleDollar {
                    ScanMode::Double
                } else {
                    ScanMode::Norm
                };
                stack.push(EFrame {
                    start: i + 1,
                    pending_hard: false,
                    kind: FrameKind::Paren,
                    resume,
                });
                mode = ScanMode::Norm;
                proof {
                    assert(stp == with_mode(
                        open_frame(st1, c, FrameKind::Paren, resume),
                        ScanMode::Norm,
                    ));
                    assert(frames_match(stack@, stp.stack, input@, i + 1, i + 1)) by {
                        assert forall|k: int| 0 <= k < stack@.len() implies frame_match(
                            #[trigger] stack@[k],
                            stp.stack[k],
                            input@,
                            i + 1,
                        ) by {
                            if k < stack@.len() - 2 {
                                assert(frame_match(stack@[k], st1.stack[k], input@, i + 1));
                            } else if k == stack@.len() - 2 {
                                assert(frame_match(stack@[k], st1.stack[k], input@, i as int));
                                assert(input@.subrange(stack@[k].start as int, i as int).push(
                                    input@[i as int],
                                ) =~= input@.subrange(stack@[k].start as int, i + 1));
                            } else {
                                assert(input@.subrange(i + 1, i + 1) =~= Seq::<char>::empty());
                            }
                        }
                    }
                }
            } else if mode == ScanMode::DoubleDollar {
                mode = ScanMode::Double;
                fall_dq = true;
                proof {
                    mid = with_mode(st1, ScanMode::Double);
                    assert(stp == dq_char(mid, c));
                    assert(frames_match(stack@, mid.stack, input@, i as int, i + 1));
                }
            } else {
                mode = ScanMode::Norm;
                fall_norm = true;
                proof {
                    mid = with_mode(st1, ScanMode::Norm);
                    assert(stp == norm_char(mid, c));
                    assert(frames_match(stack@, mid.stack, input@, i as int, i + 1));
                }
            }
        } else if mode == ScanMode::Single {
            // Inside single quotes every character is literal.
            if c == '\'' {
                mode = ScanMode::Norm;
            }
            proof {
                assert(stp == with_mode(
                    top_append(st1, c),
                    if c == '\'' {
                        ScanMode::Norm
                    } else {
                        ScanMode::Single
                    },
                ));
                assert(frames_match(stack@, stp.stack, input@, i + 1, i + 1)) by {
                    assert forall|k: int| 0 <= k < stack@.len() implies frame_match(
                        #[trigger] stack@[k],
                        stp.stack[k],
                        input@,
                        i + 1,
                    ) by {
                        if k < stack@.len() - 1 {
                            assert(frame_match(stack@[k], st1.stack[k], input@, i + 1));
                        } else {
                            assert(input@.subrange(stack@[k].start as int, i as int).push(
                                input@[i as int],
                            ) =~= input@.subrange(stack@[k].start as int, i + 1));
                        }
                    }
                }
            }
        } else if mode == ScanMode::Esc || mode == ScanMode::DoubleEsc {
            // The escaped character is literal.
            let after = if mode == ScanMode::Esc {
                ScanMode::Norm
            } else {
                ScanMode::Double
            };
            mode = after;
            proof {
                assert(stp == with_mode(top_append(st1, c), after));
                assert(frames_match(stack@, stp.stack, input@, i + 1, i + 1)) by {
                    assert forall|k: int| 0 <= k < stack@.len() implies frame_match(
                        #[trigger] stack@[k],
                        stp.stack[k],
                        input@,
                        i + 1,
                    ) by {
                        if k < stack@.len() - 1 {
                            assert(frame_match(stack@[k], st1.stack[k], input@, i + 1));
                        } else {
                            assert(input@.subrange(stack@[k].start as int, i as int).push(
                                input@[i as int],
                            ) =~= input@.subrange(stack@[k].start as int, i + 1));
                        }
                    }
                }
            }
        } else if mode == ScanMode::Double {
            fall_dq = true;
            proof {
                assert(stp == dq_char(mid, c));
                assert(frames_match(stack@, mid.stack, input@, i as int, i + 1));
            }
        } else {
            fall_norm = true;
            proof {
                assert(mode == ScanMode::Norm);
                assert(stp == norm_char(mid, c));
                assert(frames_match(stack@, mid.stack, input@, i as int, i + 1));
            }
        }

        // Phase 2, normal mode: separators, openers, quotes, escapes.
        if fall_norm {
            proof {
                assert(stp == norm_char(mid, c));
                assert(!mid.failed);
                assert(mid.done == done@.map_values(|x: String| x@));
                assert(mid.stack.len() == stack@.len());
                assert(frames_match(stack@, mid.stack, input@, i as int, i + 1));
            }
            let n2 = stack.len();
            let top2 = stack[n2 - 1];
            proof {
                assert(frame_match(stack@[n2 - 1], mid.stack[n2 - 1], input@, i as int));
                assert(top_frame(mid) == mid.stack[n2 - 1]);
            }
            if c == ';' || c == '\n' {
                let (ta, tb) = trimmed_range(input, top2.start, i);
                if ta == tb && top2.pending_hard {
                    proof {
                        assert(stp.failed);
                        lemma_failed_absorbing(input@, i + 1);
                    }
                    return None;
                }
                if tb > ta {
                    emit_command(&mut done, input, ta, tb);
                }
                set_top_exec(&mut stack, EFrame {
                    start: i + 1,
                    pending_hard: false,
                    kind: top2.kind,
                    resume: top2.resume,
                });
                proof {
                    assert(stp == with_mode(soft_term(mid), ScanMode::Norm));
                    assert(frames_match(stack@, stp.stack, input@, i + 1, i + 1)) by {
                        assert forall|k: int| 0 <= k < stack@.len() implies frame_match(
                            #[trigger] stack@[k],
                            stp.stack[k],
                            input@,
                            i + 1,
                        ) by {
                            if k < stack@.len() - 1 {
                                assert(frame_match(stack@[k], mid.stack[k], input@, i + 1));
                            } else {
                                assert(input@.subrange(i + 1, i + 1) =~= Seq::<char>::empty());
                            }
                        }
                    }
                }
            } else if c == '&' {
                mode = ScanMode::Amp;
                proof {
                    assert(stp == with_mode(mid, ScanMode::Amp));
                }
            } else if c == '|' {
                mode = ScanMode::Pipe;
                proof {
                    assert(stp == with_mode(mid, ScanMode::Pipe));
                }
            } else if c == '$' || c == '<' || c == '>' || c == '\'' || c == '"' || c == '\\' {
                mode = if c == '$' {
                    ScanMode::Dollar
                } else if c == '<' {
                    ScanMode::Lt
                } else if c == '>' {
                    ScanMode::Gt
                } else if c == '\'' {
                    ScanMode::Single
                } else if c == '"' {
                    ScanMode::Double
                } else {
                    ScanMode::Esc
                };
                proof {
                    assert(stp == with_mode(top_append(mid, c), mode));
                    assert(frames_match(stack@, stp.stack, input@, i + 1, i + 1)) by {
                        assert forall|k: int| 0 <= k < stack@.len() implies frame_match(
                            #[trigger] stack@[k],
                            stp.stack[k],
                            input@,
                            i + 1,
                        ) by {
                            if k < stack@.len() - 1 {
                                assert(frame_match(stack@[k], mid.stack[k], input@, i + 1));
                            } else {
                                assert(input@.subrange(stack@[k].start as int, i as int).push(
                                    input@[i as int],
                                ) =~= input@.subrange(stack@[k].start as int, i + 1));
                            }
                        }
                    }
                }
            } else if c == '`' && top2.kind == FrameKind::Backtick {
                let (ta, tb) = trimmed_range(input, top2.start, i);
                if ta == tb && top2.pending_hard {
                    proof {
                        assert(stp.failed);
                        lemma_failed_absorbing(input@, i + 1);
                    }
                    return None;
                }
                if tb > ta {
                    emit_command(&mut done, input, ta, tb);
                }
                stack.pop();
                mode = top2.resume;
                proof {
                    assert(stp == with_mode(close_frame(mid), top2.resume));
                    assert(frames_match(stack@, stp.stack, input@, i + 1, i + 1)) by {
                        assert forall|k: int| 0 <= k < stack@.len() implies frame_match(
                            #[trigger] stack@[k],
                            stp.stack[k],
                            input@,
                            i + 1,
                        ) by {
                            assert(frame_match(stack@[k], mid.stack[k], input@, i + 1));
                        }
                    }
                }
            } else if c == '`' {
                stack.push(EFrame {
                    start: i + 1,
                    pending_hard: false,
                    kind: FrameKind::Backtick,
                    resume: ScanMode::Norm,
                });
                proof {
                    assert(stp == with_mode(
                        open_frame(mid, c, FrameKind::Backtick, ScanMode::Norm),
                        ScanMode::Norm,
                    ));
                    assert(frames_match(stack@, stp.stack, input@, i + 1, i + 1)) by {
                        assert forall|k: int| 0 <= k < stack@.len() implies frame_match(
                            #[trigger] stack@[k],
                            stp.stack[k],
                            input@,
                            i + 1,
                        ) by {
                            if k < stack@.len() - 2 {
                                assert(frame_match(stack@[k], mid.stack[k], input@, i + 1));
                            } else if k == stack@.len() - 2 {
                                assert(frame_match(stack@[k], mid.stack[k], input@, i as int));
                                assert(input@.subrange(stack@[k].start as int, i as int).push(
                                    input@[i as int],
                                ) =~= input@.subrange(stack@[k].start as int, i + 1));
                            } else {
                                assert(input@.subrange(i + 1, i + 1) =~= Seq::<char>::empty());
                            }
                        }
                    }
                }
            } else if c == '(' {
                proof {
                    assert(stp.failed);
                    lemma_failed_absorbing(input@, i + 1);
                }
                return None;
            } else if c == ')' {
                if top2.kind == FrameKind::Paren {
                    let (ta, tb) = trimmed_range(input, top2.start, i);
                    if ta == tb && top2.pending_hard {
                        proof {
                            assert(stp.failed);
                            lemma_failed_absorbing(input@, i + 1);
                        }
                        return None;
                    }
                    if tb > ta {
                        emit_command(&mut done, input, ta, tb);
                    }
                    stack.pop();
                    mode = top2.resume;
                    proof {
                        assert(stp == with_mode(close_frame(mid), top2.resume));
                        assert(frames_match(stack@, stp.stack, input@, i + 1, i + 1)) by {
                            assert forall|k: int| 0 <= k < stack@.len() implies frame_match(
                                #[trigger] stack@[k],
                                stp.stack[k],
                                input@,
                                i + 1,
                            ) by {
                                assert(frame_match(stack@[k], mid.stack[k], input@, i + 1));
                            }
                        }
                    }
                } else {
                    proof {
                        assert(stp.failed);
                        lemma_failed_absorbing(input@, i + 1);
                    }
                    return None;
                }
            } else {
                proof {
                    assert(stp == with_mode(top_append(mid, c), ScanMode::Norm));
                    assert(frames_match(stack@, stp.stack, input@, i + 1, i + 1)) by {
                        assert forall|k: int| 0 <= k < stack@.len() implies frame_match(
                            #[trigger] stack@[k],
                            stp.stack[k],
                            input@,
                            i + 1,
                        ) by {
                            if k < stack@.len() - 1 {
                                assert(frame_match(stack@[k], mid.stack[k], input@, i + 1));
                            } else {
                                assert(input@.subrange(stack@[k].start as int, i as int).push(
                                    input@[i as int],
                                ) =~= input@.subrange(stack@[k].start as int, i + 1));
                            }
                        }
                    }
                }
            }
        } else if fall_dq {
            // Phase 2, inside double quotes: only the closing quote, the
            // escape, `$` and backticks act.
            proof {
                assert(stp == dq_char(mid, c));
                assert(!mid.failed);
                assert(mid.done == done@.map_values(|x: String| x@));
                assert(mid.stack.len() == stack@.len());
                assert(frames_match(stack@, mid.stack, input@, i as int, i + 1));
            }
            let n2 = stack.len();
            let top2 = stack[n2 - 1];
            proof {
                assert(frame_match(stack@[n2 - 1], mid.stack[n2 - 1], input@, i as int));
                assert(top_frame(mid) == mid.stack[n2 - 1]);
            }
            if c == '"' || c == '\\' || c == '$' {
                mode = if c == '"' {
                    ScanMode::Norm
                } else if c == '\\' {
                    ScanMode::DoubleEsc
                } else {
                    ScanMode::DoubleDollar
                };
                proof {
                    assert(stp == with_mode(top_append(mid, c), mode));
                    assert(frames_match(stack@, stp.stack, input@, i + 1, i + 1)) by {
                        assert forall|k: int| 0 <= k < stack@.len() implies frame_match(
                            #[trigger] stack@[k],
                            stp.stack[k],
                            input@,
                            i + 1,
                        ) by {
                            if k < stack@.len() - 1 {
                                assert(frame_match(stack@[k], mid.stack[k], input@, i + 1));
                            } else {
                                assert(input@.subrange(stack@[k].start as int, i as int).push(
                                    input@[i as int],
                                ) =~= input@.subrange(stack@[k].start as int, i + 1));
                            }
                        }
                    }
                }
            } else if c == '`' && top2.kind == FrameKind::Backtick {
                let (ta, tb) = trimmed_range(input, top2.start, i);
                if ta == tb && top2.pending_hard {
                    proof {
                        assert(stp.failed);
                        lemma_failed_absorbing(input@, i + 1);
                    }
                    return None;
                }
                if tb > ta {
                    emit_command(&mut done, input, ta, tb);
                }
                stack.pop();
                mode = top2.resume;
                proof {
                    assert(stp == with_mode(close_frame(mid), top2.resume));
                    assert(frames_match(stack@, stp.stack, input@, i + 1, i + 1)) by {
                        assert forall|k: int| 0 <= k < stack@.len() implies frame_match(
                            #[trigger] stack@[k],
                            stp.stack[k],
                            input@,
                            i + 1,
                        ) by {
                            assert(frame_match(stack@[k], mid.stack[k], input@, i + 1));
                        }
                    }
                }
            } else if c == '`' {
                stack.push(EFrame {
                    start: i + 1,
                    pending_hard: false,
                    kind: FrameKind::Backtick,
                    resume: ScanMode::Double,
                });
                mode = ScanMode::Norm;
                proof {
                    assert(stp == with_mode(
                        open_frame(mid, c, FrameKind::Backtick, ScanMode::Double),
                        ScanMode::Norm,
                    ));
                    assert(frames_match(stack@, stp.stack, input@, i + 1, i + 1)) by {
                        assert forall|k: int| 0 <= k < stack@.len() implies frame_match(
                            #[trigger] stack@[k],
                            stp.stack[k],
                            input@,
                            i + 1,
                        ) by {
                            if k < stack@.len() - 2 {
                                assert(frame_match(stack@[k], mid.stack[k], input@, i + 1));
                            } else if k == stack@.len() - 2 {
                                assert(frame_match(stack@[k], mid.stack[k], input@, i as int));
                                assert(input@.subrange(stack@[k].start as int, i as int).push(
                                    input@[i as int],
                                ) =~= input@.subrange(stack@[k].start as int, i + 1));
                            } else {
                                assert(input@.subrange(i + 1, i + 1) =~= Seq::<char>::empty());
                            }
                        }
                    }
                }
            } else {
                mode = ScanMode::Double;
                proof {
                    assert(stp == with_mode(top_append(mid, c), ScanMode::Double));
                    assert(frames_match(stack@, stp.stack, input@, i + 1, i + 1)) by {
                        assert forall|k: int| 0 <= k < stack@.len() implies frame_match(
                            #[trigger] stack@[k],
                            stp.stack[k],
                            input@,
                            i + 1,
                        ) by {
                            if k < stack@.len() - 1 {
                                assert(frame_match(stack@[k], mid.stack[k], input@, i + 1));
                            } else {
                                assert(input@.subrange(stack@[k].start as int, i as int).push(
                                    input@[i as int],
                                ) =~= input@.subrange(stack@[k].start as int, i + 1));
                            }
                        }
                    }
                }
            }
        }
        i = i + 1;
        proof {
            assert(scan_all(input@.take(i as int)) == stp);
        }
    }

    // End of input.
    proof {
        assert(input@.take(i as int) =~= input@);
    }
    let ghost stf = scan_all(input@);
    if mode == ScanMode::Pipe {
        return None;
    }
    if mode == ScanMode::Single || mode == ScanMode::Double || mode == ScanMode::DoubleDollar
        || mode == ScanMode::Esc || mode == ScanMode::DoubleEsc {
        // An unterminated quote or escape makes the input unparseable.
        return None;
    }
    let ghost mut resolved: GScan = stf;
    if mode == ScanMode::Amp {
        let n = stack.len();
        let top = stack[n - 1];
        proof {
            assert(frame_match(stack@[n - 1], stf.stack[n - 1], input@, len - 1));
        }
        let (ta, tb) = trimmed_range(input, top.start, len - 1);
        if ta == tb && top.pending_hard {
            proof {
                assert(soft_term(stf).failed);
            }
            return None;
        }
        if tb > ta {
            emit_command(&mut done, input, ta, tb);
        }
        set_top_exec(&mut stack, EFrame {
            start: len,
            pending_hard: false,
            kind: top.kind,
            resume: top.resume,
        });
        proof {
            resolved = soft_term(stf);
            assert(!resolved.failed);
            assert(resolved.done == done@.map_values(|x: String| x@));
            assert(frames_match(stack@, resolved.stack, input@, len as int, len as int)) by {
                assert forall|k: int| 0 <= k < stack@.len() implies frame_match(
                    #[trigger] stack@[k],
                    resolved.stack[k],
                    input@,
                    len as int,
                ) by {
                    if k < stack@.len() - 1 {
                        assert(frame_match(stack@[k], stf.stack[k], input@, len as int));
                    } else {
                        assert(input@.subrange(len as int, len as int) =~= Seq::<char>::empty());
                    }
                }
            }
        }
    }
    proof {
        assert(!resolved.failed);
        assert(resolved.stack.len() == stack@.len());
        assert(resolved.done == done@.map_values(|x: String| x@));
    }
    if stack.len() != 1 {
        return None;
    }
    let top = stack[0];
    proof {
        assert(frame_match(
            stack@[0],
            resolved.stack[0],
            input@,
            if mode == ScanMode::Amp {
                len as int
            } else {
                len - mode_adj(mode)
            },
        ));
        assert(mode_adj(mode) == 0 || mode == ScanMode::Amp);
        assert(top_frame(resolved) == resolved.stack[0]);
    }
    let (ta, tb) = trimmed_range(input, top.start, len);
    if ta == tb && top.pending_hard {
        return None;
    }
    if tb > ta {
        emit_command(&mut done, input, ta, tb);
    }
    proof {
        assert(extract_spec(input@) == Some(done@.map_values(|x: String| x@)));
    }
    Some(done)
}

} // verus!
