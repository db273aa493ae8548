//! Lexical path normalization: collapsing `.` and `..` segments without
//! touching the filesystem. Used both for policy evaluation on paths and
//! for the built-in safety rules on `rm` operands.

use vstd::prelude::*;
use crate::text::ranges_model;

verus! {

/// The segments of `s` split on `/`, empty segments included.
/// The result always holds at least one (possibly empty) segment.
pub open spec fn split_slash(s: Seq<char>) -> Seq<Seq<char>>
    decreases s.len(),
{
    if s.len() == 0 {
        seq![Seq::empty()]
    } else {
        let pre = split_slash(s.drop_last());
        if s.last() == '/' {
            pre.push(Seq::empty())
        } else {
            pre.drop_last().push(pre.last().push(s.last()))
        }
    }
}

/// The one-character segment `.`.
pub open spec fn seg_dot() -> Seq<char> {
    seq!['.']
}

/// The two-character segment `..`.
pub open spec fn seg_dotdot() -> Seq<char> {
    seq!['.', '.']
}

/// How one segment changes the list of retained segments:
/// empty and `.` segments are dropped; `..` pops the previous retained
/// segment unless that segment is itself an unresolved `..` (kept) or
/// there is nothing to pop (clamped at root when absolute, retained
/// literally when relative); anything else is retained.
pub open spec fn collapse_step(acc: Seq<Seq<char>>, seg: Seq<char>, is_abs: bool) -> Seq<
    Seq<char>,
> {
    if seg.len() == 0 || seg == seg_dot() {
        acc
    } else if seg == seg_dotdot() {
        if acc.len() > 0 && acc.last() == seg_dotdot() {
            acc.push(seg_dotdot())
        } else if acc.len() > 0 {
            acc.drop_last()
        } else if !is_abs {
            acc.push(seg_dotdot())
        } else {
            acc
        }
    } else {
        acc.push(seg)
    }
}

/// The segments retained after collapsing `.` and `..`.
pub open spec fn collapse(segs: Seq<Seq<char>>, is_abs: bool) -> Seq<Seq<char>>
    decreases segs.len(),
{
    if segs.len() == 0 {
        Seq::empty()
    } else {
        collapse_step(collapse(segs.drop_last(), is_abs), segs.last(), is_abs)
    }
}

/// The segments joined with `/` separators.
pub open spec fn join_slash(segs: Seq<Seq<char>>) -> Seq<char>
    decreases segs.len(),
{
    if segs.len() == 0 {
        Seq::empty()
    } else if segs.len() == 1 {
        segs[0]
    } else {
        join_slash(segs.drop_last()) + seq!['/'] + segs.last()
    }
}

/// Lexical normalization of a path: split on `/`, collapse `.` and `..`,
/// rejoin; absolute inputs keep their leading `/` and can never escape
/// above the root.
pub open spec fn normalize_spec(s: Seq<char>) -> Seq<char> {
    let is_abs = s.len() > 0 && s[0] == '/';
    let joined = join_slash(collapse(split_slash(s), is_abs));
    if is_abs {
        seq!['/'] + joined
    } else {
        joined
    }
}

/// Splits `s` into the index ranges of its `/`-separated segments.
fn split_slash_ranges(s: &str) -> (r: Vec<(usize, usize)>)
    ensures
        ranges_model(r@, s@) == split_slash(s@),
        forall|k: int| 0 <= k < r@.len() ==> (#[trigger] r@[k]).0 <= r@[k].1 <= s@.len(),
{
    let len = s.unicode_len();
    let mut acc: Vec<(usize, usize)> = Vec::new();
    let mut seg_start: usize = 0;
    let mut i: usize = 0;
    proof {
        assert(s@.subrange(0, 0) =~= Seq::<char>::empty());
        assert(s@.take(0) =~= Seq::<char>::empty());
        assert(ranges_model(acc@, s@).push(s@.subrange(0, 0)) =~= split_slash(s@.take(0)));
    }
    while i < len
        invariant
            len == s@.len(),
            i <= len,
            seg_start <= i,
            forall|k: int| 0 <= k < acc@.len() ==> (#[trigger] acc@[k]).0 <= acc@[k].1 <= i,
            ranges_model(acc@, s@).push(s@.subrange(seg_start as int, i as int)) == split_slash(
                s@.take(i as int),
            ),
        decreases len - i,
    {
        let c = s.get_char(i);
        proof {
            assert(s@.take(i + 1).drop_last() =~= s@.take(i as int));
            assert(s@.take(i + 1).last() == s@[i as int]);
        }
        if c == '/' {
            acc.push((seg_start, i));
            seg_start = i + 1;
            proof {
                assert(s@.subrange(i + 1, i + 1) =~= Seq::<char>::empty());
                assert(ranges_model(acc@, s@).push(s@.subrange(i + 1, i + 1)) =~= split_slash(
                    s@.take(i + 1),
                ));
            }
        } else {
            proof {
                let pre = split_slash(s@.take(i as int));
                assert(pre.drop_last() =~= ranges_model(acc@, s@));
                assert(s@.subrange(seg_start as int, i as int).push(s@[i as int]) =~= s@.subrange(
                    seg_start as int,
                    i + 1,
                ));
                assert(ranges_model(acc@, s@).push(s@.subrange(seg_start as int, i + 1))
                    =~= split_slash(s@.take(i + 1)));
            }
        }
        i = i + 1;
    }
    acc.push((seg_start, len));
    proof {
        assert(s@.take(len as int) =~= s@);
        assert(ranges_model(acc@, s@) =~= split_slash(s@));
    }
    acc
}

/// Whether the range `[a, b)` of `s` holds exactly `.`.
fn range_is_dot(s: &str, a: usize, b: usize) -> (r: bool)
    requires
        a <= b <= s@.len(),
    ensures
        r == (s@.subrange(a as int, b as int) == seg_dot()),
{
    if b - a == 1 && s.get_char(a) == '.' {
        proof {
            assert(s@.subrange(a as int, b as int) =~= seg_dot());
        }
        true
    } else {
        proof {
            if s@.subrange(a as int, b as int) == seg_dot() {
                assert(s@.subrange(a as int, b as int).len() == 1);
                assert(s@.subrange(a as int, b as int)[0] == '.');
            }
        }
        false
    }
}

/// Whether the range `[a, b)` of `s` holds exactly `..`.
fn range_is_dotdot(s: &str, a: usize, b: usize) -> (r: bool)
    requires
        a <= b <= s@.len(),
    ensures
        r == (s@.subrange(a as int, b as int) == seg_dotdot()),
{
    if b - a == 2 && s.get_char(a) == '.' && s.get_char(a + 1) == '.' {
        proof {
            assert(s@.subrange(a as int, b as int) =~= seg_dotdot());
        }
        true
    } else {
        proof {
            if s@.subrange(a as int, b as int) == seg_dotdot() {
                assert(s@.subrange(a as int, b as int).len() == 2);
                assert(s@.subrange(a as int, b as int)[0] == '.');
                assert(s@.subrange(a as int, b as int)[1] == '.');
            }
        }
        false
    }
}

/// Normalizes a path lexically: drops `.` segments, resolves `..`
/// against the previous retained segment, clamps absolute paths at the
/// root, keeps unresolvable leading `..` on relative paths, and rejoins
/// with `/`. No filesystem access is involved.
pub fn normalize_path(raw: &str) -> (r: String)
    ensures
        r@ == normalize_spec(raw@),
{
    let len = raw.unicode_len();
    let is_abs = len > 0 && raw.get_char(0) == '/';
    let segs = split_slash_ranges(raw);
    let ghost all = split_slash(raw@);

    let mut kept: Vec<(usize, usize)> = Vec::new();
    let mut j: usize = 0;
    while j < segs.len()
        invariant
            len == raw@.len(),
            is_abs == (raw@.len() > 0 && raw@[0] == '/'),
            all == split_slash(raw@),
            ranges_model(segs@, raw@) == all,
            forall|k: int| 0 <= k < segs@.len() ==> (#[trigger] segs@[k]).0 <= segs@[k].1 <= len,
            j <= segs@.len(),
            forall|k: int| 0 <= k < kept@.len() ==> (#[trigger] kept@[k]).0 <= kept@[k].1 <= len,
            ranges_model(kept@, raw@) == collapse(all.take(j as int), is_abs),
        decreases segs@.len() - j,
    {
        let (a, b) = segs[j];
        proof {
            assert(all.take(j + 1).drop_last() =~= all.take(j as int));
            assert(all.take(j + 1).last() == all[j as int]);
            assert(all[j as int] == raw@.subrange(a as int, b as int));
        }
        let is_empty = b == a;
        proof {
            if is_empty {
                assert(raw@.subrange(a as int, b as int) =~= Seq::<char>::empty());
            }
        }
        if is_empty || range_is_dot(raw, a, b) {
            // dropped
        } else if range_is_dotdot(raw, a, b) {
            let klen = kept.len();
            let mut popped = false;
            if klen > 0 {
                let (la, lb) = kept[klen - 1];
                proof {
                    assert(ranges_model(kept@, raw@).last() == raw@.subrange(la as int, lb as int));
                }
                if !range_is_dotdot(raw, la, lb) {
                    kept.pop();
                    popped = true;
                    proof {
                        assert(ranges_model(kept@, raw@) =~= collapse(
                            all.take(j as int),
                            is_abs,
                        ).drop_last());
                    }
                }
            }
            if !popped && (klen == 0 && !is_abs || klen > 0) {
                kept.push((a, b));
                proof {
                    assert(ranges_model(kept@, raw@) =~= collapse(all.take(j + 1), is_abs));
                }
            }
            proof {
                assert(ranges_model(kept@, raw@) =~= collapse(all.take(j + 1), is_abs));
            }
        } else {
            kept.push((a, b));
            proof {
                assert(ranges_model(kept@, raw@) =~= collapse(all.take(j + 1), is_abs));
            }
        }
        j = j + 1;
    }
    proof {
        assert(all.take(segs@.len() as int) =~= all);
    }

    let ghost final_segs = collapse(all, is_abs);
    let mut out = if is_abs {
        String::from_str("/")
    } else {
        String::new()
    };
    proof {
        reveal_strlit("/");
        assert("/"@ =~= seq!['/']);
    }
    let ghost prefix = if is_abs {
        seq!['/']
    } else {
        Seq::<char>::empty()
    };
    let mut k: usize = 0;
    while k < kept.len()
        invariant
            len == raw@.len(),
            forall|t: int| 0 <= t < kept@.len() ==> (#[trigger] kept@[t]).0 <= kept@[t].1 <= len,
            ranges_model(kept@, raw@) == final_segs,
            k <= kept@.len(),
            prefix == (if is_abs { seq!['/'] } else { Seq::<char>::empty() }),
            out@ == prefix + join_slash(final_segs.take(k as int)),
        decreases kept@.len() - k,
    {
        let (a, b) = kept[k];
        proof {
            assert(final_segs.take(k + 1).drop_last() =~= final_segs.take(k as int));
            assert(final_segs.take(k + 1).last() == final_segs[k as int]);
            assert(final_segs[k as int] == raw@.subrange(a as int, b as int));
        }
        if k > 0 {
            out.append("/");
        }
        let seg = raw.substring_char(a, b);
        out.append(seg);
        proof {
            reveal_strlit("/");
            if k == 0 {
                assert(join_slash(final_segs.take(1)) == final_segs[0]);
                assert(out@ =~= prefix + join_slash(final_segs.take(k + 1)));
            } else {
                assert(out@ =~= prefix + join_slash(final_segs.take(k + 1)));
            }
        }
        k = k + 1;
    }
    proof {
        assert(final_segs.take(kept@.len() as int) =~= final_segs);
        assert(out@ =~= normalize_spec(raw@));
    }
    out
}

} // verus!
