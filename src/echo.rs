//! Backslash escapes of `echo -e`.
use vstd::prelude::*;
use crate::text::{chars_of, string_of};

verus! {

/// Whether `v` is a Unicode scalar value.
pub open spec fn is_scalar(v: u32) -> bool {
    v <= 0x10FFFF && !(0xD800 <= v <= 0xDFFF)
}

/// The character with code `v`, when there is one.
pub open spec fn char_of(v: u32) -> Option<char> {
    if is_scalar(v) {
        Some(v as char)
    } else {
        None
    }
}

/// Relies on `char::from_u32`: the character whose code is `v`, for a
/// Unicode scalar value, else `None`.
#[verifier::external_body]
fn char_from(v: u32) -> (r: Option<char>)
    ensures
        r == char_of(v),
{
    char::from_u32(v)
}

/// The value of `c` as a digit in `base`, as `char::to_digit` reads it:
/// `0`-`9`, then letters of either case from ten on.
pub open spec fn digit_of(c: char, base: u32) -> Option<u32> {
    let v: int = if '0' <= c <= '9' {
        c as int - '0' as int
    } else if 'a' <= c <= 'z' {
        c as int - 'a' as int + 10
    } else if 'A' <= c <= 'Z' {
        c as int - 'A' as int + 10
    } else {
        36
    };
    if v < base {
        Some(v as u32)
    } else {
        None
    }
}

fn to_digit(c: char, base: u32) -> (r: Option<u32>)
    requires
        base <= 36,
    ensures
        r == digit_of(c, base),
{
    let v: u32 = if '0' <= c && c <= '9' {
        (c as u32) - ('0' as u32)
    } else if 'a' <= c && c <= 'z' {
        (c as u32) - ('a' as u32) + 10
    } else if 'A' <= c && c <= 'Z' {
        (c as u32) - ('A' as u32) + 10
    } else {
        36
    };
    if v < base {
        Some(v)
    } else {
        None
    }
}

/// The leading digits of `s` in `base`, at most `max` of them.
pub open spec fn digit_run(s: Seq<char>, base: u32, max: nat) -> Seq<u32>
    decreases max,
{
    if max == 0 || s.len() == 0 || digit_of(s[0], base) is None {
        Seq::empty()
    } else {
        seq![digit_of(s[0], base)->0] + digit_run(s.drop_first(), base, (max - 1) as nat)
    }
}

pub proof fn lemma_digit_run_len(s: Seq<char>, base: u32, max: nat)
    ensures
        digit_run(s, base, max).len() <= s.len(),
        digit_run(s, base, max).len() <= max,
    decreases max,
{
    if !(max == 0 || s.len() == 0 || digit_of(s[0], base) is None) {
        lemma_digit_run_len(s.drop_first(), base, (max - 1) as nat);
    }
}

/// The start value of a numeric escape: a bit high enough that a value
/// with too few digits is no character.
pub open spec fn escape_start() -> u32 {
    0x800_0000
}

/// The digits shifted in one by one, `bpd` bits each, from `r` on.
pub open spec fn accumulate(r: u32, ds: Seq<u32>, bpd: u32) -> u32
    decreases ds.len(),
{
    if ds.len() == 0 {
        r
    } else {
        accumulate(((r << bpd) | ds[0]) as u32, ds.drop_first(), bpd)
    }
}

/// Reads up to `max` digits in `base` from `input` at `pos`, shifting each
/// into the value by `bpd` bits, and returns the character of the value (if
/// it is one) and the position after the digits read.
pub fn parse(input: &Vec<char>, pos: usize, base: u32, max: u32, bpd: u32) -> (r: (
    Option<char>,
    usize,
))
    requires
        pos <= input@.len(),
        2 <= base <= 36,
        bpd < 32,
    ensures
        r.1 == pos + digit_run(input@.skip(pos as int), base, max as nat).len(),
        r.0 == char_of(
            accumulate(escape_start(), digit_run(input@.skip(pos as int), base, max as nat), bpd),
        ),
{
    let ghost all = digit_run(input@.skip(pos as int), base, max as nat);
    let mut r: u32 = 0x8000 * 0x1000;
    let mut p: usize = pos;
    let mut k: u32 = 0;
    proof {
        lemma_digit_run_len(input@.skip(pos as int), base, max as nat);
    }
    while k < max && p < input.len() && to_digit(input[p], base).is_some()
        invariant
            pos <= p <= input@.len(),
            k <= max,
            p - pos == k,
            2 <= base <= 36,
            bpd < 32,
            k <= all.len(),
            all == digit_run(input@.skip(pos as int), base, max as nat),
            all.take(k as int) + digit_run(input@.skip(p as int), base, (max - k) as nat) == all,
            accumulate(r, digit_run(input@.skip(p as int), base, (max - k) as nat), bpd)
                == accumulate(escape_start(), all, bpd),
        decreases max - k,
    {
        let ghost rest = input@.skip(p as int);
        assert(rest[0] == input@[p as int]);
        match to_digit(input[p], base) {
            Some(n) => {
                assert(rest.drop_first() == input@.skip(p + 1));
                let ghost run = digit_run(rest, base, (max - k) as nat);
                let ghost tail = digit_run(input@.skip(p + 1), base, (max - k - 1) as nat);
                assert(run == seq![n] + tail);
                assert(run.drop_first() == tail);
                assert(all[k as int] == n) by {
                    assert((all.take(k as int) + run)[k as int] == run[0]);
                }
                assert(all.take(k + 1) =~= all.take(k as int).push(n));
                assert(all.take(k + 1) + tail =~= all.take(k as int) + run);
                r = (r << bpd) | n;
                p += 1;
                k += 1;
            },
            None => {},
        }
    }
    proof {
        let rest = input@.skip(p as int);
        if k < max && p < input@.len() {
            assert(rest[0] == input@[p as int]);
        }
        assert(digit_run(rest, base, (max - k) as nat) == Seq::<u32>::empty());
        assert(all.take(k as int) + Seq::<u32>::empty() == all.take(k as int));
    }
    (char_from(r), p)
}

/// The character a one-letter escape stands for.
pub open spec fn escape_char(n: char) -> Option<char> {
    if n == '\\' {
        Some('\\')
    } else if n == 'a' {
        Some('\x07')
    } else if n == 'b' {
        Some('\x08')
    } else if n == 'e' {
        Some('\x1b')
    } else if n == 'f' {
        Some('\x0c')
    } else if n == 'n' {
        Some('\n')
    } else if n == 'r' {
        Some('\r')
    } else if n == 't' {
        Some('\t')
    } else if n == 'v' {
        Some('\x0b')
    } else {
        None
    }
}

/// The output of an escaped string and whether a `\c` stopped it. `\xHH`
/// (up to two hex digits) and `\0NNN` (up to three octal digits) give the
/// character of their value; when that is none, the digits are dropped and
/// the backslash and letter shown. Unknown escapes show as written.
pub open spec fn unescape(s: Seq<char>) -> (Seq<char>, bool)
    decreases s.len(),
{
    if s.len() == 0 {
        (Seq::empty(), false)
    } else if s[0] != '\\' || s.len() == 1 {
        let r = unescape(s.drop_first());
        (seq![s[0]] + r.0, r.1)
    } else {
        let n = s[1];
        let rest = s.skip(2);
        if n == 'c' {
            (Seq::empty(), true)
        } else if escape_char(n) is Some {
            let r = unescape(rest);
            (seq![escape_char(n)->0] + r.0, r.1)
        } else if n == 'x' || n == '0' {
            let base: u32 = if n == 'x' { 16 } else { 8 };
            let max: nat = if n == 'x' { 2 } else { 3 };
            let bpd: u32 = if n == 'x' { 4 } else { 3 };
            let run = digit_run(rest, base, max);
            let after = if run.len() <= rest.len() { rest.skip(run.len() as int) } else { Seq::empty() };
            let r = unescape(after);
            let shown = match char_of(accumulate(escape_start(), run, bpd)) {
                Some(c) => seq![c],
                None => seq!['\\', n],
            };
            (shown + r.0, r.1)
        } else {
            let r = unescape(rest);
            (seq!['\\', n] + r.0, r.1)
        }
    }
}

fn escape_of(n: char) -> (r: Option<char>)
    ensures
        r == escape_char(n),
{
    if n == '\\' {
        Some('\\')
    } else if n == 'a' {
        Some('\x07')
    } else if n == 'b' {
        Some('\x08')
    } else if n == 'e' {
        Some('\x1b')
    } else if n == 'f' {
        Some('\x0c')
    } else if n == 'n' {
        Some('\n')
    } else if n == 'r' {
        Some('\r')
    } else if n == 't' {
        Some('\t')
    } else if n == 'v' {
        Some('\x0b')
    } else {
        None
    }
}

/// Interprets the backslash escapes of `input`: returns the text to print
/// and whether `\c` asked to stop all further output.
pub fn escaped(input: &str) -> (r: (String, bool))
    ensures
        r.0@ == unescape(input@).0,
        r.1 == unescape(input@).1,
{
    let s = chars_of(input);
    let mut out: Vec<char> = Vec::new();
    let mut i: usize = 0;
    assert(s@.skip(0) == s@);
    while i < s.len()
        invariant
            i <= s@.len(),
            s@ == input@,
            out@ + unescape(s@.skip(i as int)).0 == unescape(s@).0,
            unescape(s@.skip(i as int)).1 == unescape(s@).1,
        decreases s.len() - i,
    {
        let ghost t = s@.skip(i as int);
        assert(t[0] == s@[i as int]);
        let c = s[i];
        if c != '\\' || i + 1 == s.len() {
            assert(t.drop_first() == s@.skip(i + 1));
            out.push(c);
            assert(out@ + unescape(s@.skip(i + 1)).0 =~= out@.drop_last() + (seq![c] + unescape(
                s@.skip(i + 1),
            ).0));
            i += 1;
        } else {
            let n = s[i + 1];
            assert(t[1] == n);
            assert(t.skip(2) == s@.skip(i + 2));
            if n == 'c' {
                assert(out@ + Seq::<char>::empty() == out@);
                return (string_of(&out), true);
            }
            match escape_of(n) {
                Some(e) => {
                    out.push(e);
                    assert(out@ + unescape(s@.skip(i + 2)).0 =~= out@.drop_last() + (seq![e]
                        + unescape(s@.skip(i + 2)).0));
                    i += 2;
                },
                None => {
                    if n == 'x' || n == '0' {
                        let (base, max, bpd): (u32, u32, u32) = if n == 'x' {
                            (16, 2, 4)
                        } else {
                            (8, 3, 3)
                        };
                        let (ch, next) = parse(&s, i + 2, base, max, bpd);
                        proof {
                            lemma_digit_run_len(s@.skip(i + 2), base, max as nat);
                            let run = digit_run(s@.skip(i + 2), base, max as nat);
                            assert(s@.skip(i + 2).skip(run.len() as int) == s@.skip(next as int));
                        }
                        match ch {
                            Some(v) => {
                                out.push(v);
                                assert(out@ + unescape(s@.skip(next as int)).0 =~= out@.drop_last()
                                    + (seq![v] + unescape(s@.skip(next as int)).0));
                            },
                            None => {
                                out.push('\\');
                                out.push(n);
                                assert(out@ + unescape(s@.skip(next as int)).0 =~= out@.drop_last().drop_last()
                                    + (seq!['\\', n] + unescape(s@.skip(next as int)).0));
                            },
                        }
                        i = next;
                    } else {
                        out.push('\\');
                        out.push(n);
                        assert(out@ + unescape(s@.skip(i + 2)).0 =~= out@.drop_last().drop_last()
                            + (seq!['\\', n] + unescape(s@.skip(i + 2)).0));
                        i += 2;
                    }
                },
            }
        }
    }
    assert(s@.skip(i as int) =~= Seq::<char>::empty());
    assert(out@ + Seq::<char>::empty() == out@);
    (string_of(&out), false)
}

} // verus!
