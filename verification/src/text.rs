//! Character-level text utilities: ASCII whitespace, trimming,
//! whitespace-splitting and decimal formatting, with full functional
//! specifications. All command handling in this crate is built on these.

use vstd::prelude::*;

verus! {

/// ASCII whitespace, the separators this crate recognises in commands.
pub open spec fn is_space(c: char) -> bool {
    c == ' ' || c == '\t' || c == '\n' || c == '\r' || c == '\x0b' || c == '\x0c'
}

/// Executable twin of [`is_space`].
pub fn char_is_space(c: char) -> (r: bool)
    ensures
        r == is_space(c),
{
    c == ' ' || c == '\t' || c == '\n' || c == '\r' || c == '\x0b' || c == '\x0c'
}

/// `s` with leading whitespace removed.
pub open spec fn trim_front(s: Seq<char>) -> Seq<char>
    decreases s.len(),
{
    if s.len() > 0 && is_space(s.first()) {
        trim_front(s.drop_first())
    } else {
        s
    }
}

/// `s` with trailing whitespace removed.
pub open spec fn trim_back(s: Seq<char>) -> Seq<char>
    decreases s.len(),
{
    if s.len() > 0 && is_space(s.last()) {
        trim_back(s.drop_last())
    } else {
        s
    }
}

/// `s` with whitespace removed from both ends.
pub open spec fn trim_spec(s: Seq<char>) -> Seq<char> {
    trim_back(trim_front(s))
}

/// Narrows `[from, to)` to the bounds of the trimmed content of that range.
pub fn trimmed_range(s: &str, from: usize, to: usize) -> (r: (usize, usize))
    requires
        from <= to <= s@.len(),
    ensures
        from <= r.0 <= r.1 <= to,
        s@.subrange(r.0 as int, r.1 as int) == trim_spec(s@.subrange(from as int, to as int)),
{
    let mut a = from;
    while a < to && char_is_space(s.get_char(a))
        invariant
            from <= a <= to <= s@.len(),
            trim_front(s@.subrange(a as int, to as int)) == trim_front(
                s@.subrange(from as int, to as int),
            ),
        decreases to - a,
    {
        proof {
            let cur = s@.subrange(a as int, to as int);
            assert(cur.drop_first() =~= s@.subrange(a + 1, to as int));
        }
        a = a + 1;
    }
    proof {
        let cur = s@.subrange(a as int, to as int);
        assert(trim_front(cur) == cur);
    }
    let mut b = to;
    while b > a && char_is_space(s.get_char(b - 1))
        invariant
            from <= a <= b <= to <= s@.len(),
            trim_front(s@.subrange(a as int, to as int)) == trim_front(
                s@.subrange(from as int, to as int),
            ),
            trim_front(s@.subrange(a as int, to as int)) == s@.subrange(a as int, to as int),
            trim_back(s@.subrange(a as int, b as int)) == trim_back(
                s@.subrange(a as int, to as int),
            ),
        decreases b,
    {
        proof {
            let cur = s@.subrange(a as int, b as int);
            assert(cur.drop_last() =~= s@.subrange(a as int, b - 1));
        }
        b = b - 1;
    }
    proof {
        let cur = s@.subrange(a as int, b as int);
        assert(trim_back(cur) == cur);
    }
    (a, b)
}

/// Character-by-character string equality, specified over the views.
pub fn str_eq(a: &str, b: &str) -> (r: bool)
    ensures
        r == (a@ == b@),
{
    let alen = a.unicode_len();
    let blen = b.unicode_len();
    if alen != blen {
        return false;
    }
    let mut i: usize = 0;
    while i < alen
        invariant
            alen == a@.len(),
            alen == b@.len(),
            i <= alen,
            forall|j: int| 0 <= j < i ==> a@[j] == b@[j],
        decreases alen - i,
    {
        if a.get_char(i) != b.get_char(i) {
            return false;
        }
        i = i + 1;
    }
    proof {
        assert(a@ =~= b@);
    }
    true
}

/// The whitespace-separated tokens of `s`, in order; tokens are never empty.
pub open spec fn split_ws(s: Seq<char>) -> Seq<Seq<char>>
    decreases s.len(),
{
    if s.len() == 0 {
        Seq::empty()
    } else {
        let pre = split_ws(s.drop_last());
        let c = s.last();
        if is_space(c) {
            pre
        } else if s.len() >= 2 && !is_space(s[s.len() - 2]) {
            pre.drop_last().push(pre.last().push(c))
        } else {
            pre.push(seq![c])
        }
    }
}

/// Interprets a vector of index pairs as the corresponding subranges of `s`.
pub open spec fn ranges_model(r: Seq<(usize, usize)>, s: Seq<char>) -> Seq<Seq<char>> {
    r.map_values(|p: (usize, usize)| s.subrange(p.0 as int, p.1 as int))
}

/// Splits `s` into the index ranges of its whitespace-separated tokens.
pub fn split_ws_ranges(s: &str) -> (r: Vec<(usize, usize)>)
    ensures
        ranges_model(r@, s@) == split_ws(s@),
        forall|k: int| 0 <= k < r@.len() ==> (#[trigger] r@[k]).0 < r@[k].1 <= s@.len(),
{
    let len = s.unicode_len();
    let mut acc: Vec<(usize, usize)> = Vec::new();
    let mut in_token = false;
    let mut tok_start: usize = 0;
    let mut i: usize = 0;
    while i < len
        invariant
            len == s@.len(),
            i <= len,
            forall|k: int| 0 <= k < acc@.len() ==> (#[trigger] acc@[k]).0 < acc@[k].1 <= i,
            in_token ==> tok_start < i && !is_space(s@[i - 1]) && ranges_model(acc@, s@).push(
                s@.subrange(tok_start as int, i as int),
            ) == split_ws(s@.take(i as int)),
            !in_token ==> (i == 0 || is_space(s@[i - 1])) && ranges_model(acc@, s@) == split_ws(
                s@.take(i as int),
            ),
        decreases len - i,
    {
        let c = s.get_char(i);
        proof {
            assert(s@.take(i + 1).drop_last() =~= s@.take(i as int));
            assert(s@.take(i + 1).last() == s@[i as int]);
        }
        if char_is_space(c) {
            if in_token {
                acc.push((tok_start, i));
                in_token = false;
                proof {
                    assert(ranges_model(acc@, s@) =~= split_ws(s@.take(i + 1)));
                }
            }
        } else {
            if in_token {
                proof {
                    let pre = split_ws(s@.take(i as int));
                    assert(s@.take(i + 1)[i - 1] == s@[i - 1]);
                    assert(split_ws(s@.take(i + 1)) == pre.drop_last().push(
                        pre.last().push(s@[i as int]),
                    ));
                    assert(s@.subrange(tok_start as int, i as int).push(s@[i as int]) =~= s@
                        .subrange(tok_start as int, i + 1));
                    assert(pre.drop_last() =~= ranges_model(acc@, s@));
                    assert(ranges_model(acc@, s@).push(s@.subrange(tok_start as int, i + 1))
                        =~= split_ws(s@.take(i + 1)));
                }
            } else {
                tok_start = i;
                in_token = true;
                proof {
                    if i > 0 {
                        assert(s@.take(i + 1)[i - 1] == s@[i - 1]);
                    }
                    assert(s@.subrange(i as int, i + 1) =~= seq![s@[i as int]]);
                    assert(ranges_model(acc@, s@).push(s@.subrange(i as int, i + 1)) =~= split_ws(
                        s@.take(i + 1),
                    ));
                }
            }
        }
        i = i + 1;
    }
    proof {
        assert(s@.take(len as int) =~= s@);
    }
    if in_token {
        acc.push((tok_start, len));
        proof {
            assert(ranges_model(acc@, s@) =~= split_ws(s@));
        }
    }
    acc
}

/// The decimal digit character for `d`.
pub open spec fn dec_digit(d: nat) -> char {
    if d == 0 {
        '0'
    } else if d == 1 {
        '1'
    } else if d == 2 {
        '2'
    } else if d == 3 {
        '3'
    } else if d == 4 {
        '4'
    } else if d == 5 {
        '5'
    } else if d == 6 {
        '6'
    } else if d == 7 {
        '7'
    } else if d == 8 {
        '8'
    } else {
        '9'
    }
}

/// The decimal representation of `n`, without leading zeroes
/// (except for `n == 0` itself).
pub open spec fn dec_repr(n: nat) -> Seq<char>
    decreases n,
{
    if n < 10 {
        seq![dec_digit(n)]
    } else {
        dec_repr(n / 10).push(dec_digit(n % 10))
    }
}

/// A one-character string holding the digit `d`.
fn digit_string(d: usize) -> (r: String)
    requires
        d < 10,
    ensures
        r@ == seq![dec_digit(d as nat)],
{
    let r = if d == 0 {
        String::from_str("0")
    } else if d == 1 {
        String::from_str("1")
    } else if d == 2 {
        String::from_str("2")
    } else if d == 3 {
        String::from_str("3")
    } else if d == 4 {
        String::from_str("4")
    } else if d == 5 {
        String::from_str("5")
    } else if d == 6 {
        String::from_str("6")
    } else if d == 7 {
        String::from_str("7")
    } else if d == 8 {
        String::from_str("8")
    } else {
        String::from_str("9")
    };
    proof {
        reveal_strlit("0");
        reveal_strlit("1");
        reveal_strlit("2");
        reveal_strlit("3");
        reveal_strlit("4");
        reveal_strlit("5");
        reveal_strlit("6");
        reveal_strlit("7");
        reveal_strlit("8");
        reveal_strlit("9");
        assert(r@ =~= seq![dec_digit(d as nat)]);
    }
    r
}

/// Formats `n` in decimal.
pub fn usize_to_string(n: usize) -> (r: String)
    ensures
        r@ == dec_repr(n as nat),
    decreases n,
{
    if n < 10 {
        digit_string(n)
    } else {
        let mut s = usize_to_string(n / 10);
        let d = digit_string(n % 10);
        s.append(d.as_str());
        proof {
            assert(s@ =~= dec_repr(n as nat));
        }
        s
    }
}

} // verus!
