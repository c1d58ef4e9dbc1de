//! Exact readers for the numeric wire fields.
//!
//! Telemetry payloads carry numbers as decimal text (possibly signed, with a
//! fractional part). The engine models such quantities as fixed-point
//! integers in millionths, so `"+20.652494"` reads as `20652494` millionths
//! of a degree; diagnostic codes read as plain integers. Each reader's
//! contract pins exactly which strings are accepted and what value results.

use vstd::prelude::*;

verus! {

use crate::classify::is_space_char;

/// `c` is an ASCII decimal digit.
pub open spec fn is_digit(c: char) -> bool {
    48 <= c as u32 && c as u32 <= 57
}

/// Numeric value of a decimal digit.
pub open spec fn digit_val(c: char) -> int {
    c as u32 - 48
}

/// Every character of `s` is a decimal digit.
pub open spec fn all_digits(s: Seq<char>) -> bool {
    forall|i: int| 0 <= i < s.len() ==> is_digit(s[i])
}

/// Value of a digit string, most significant digit first.
pub open spec fn digits_val(s: Seq<char>) -> int
    decreases s.len(),
{
    if s.len() == 0 {
        0
    } else {
        digits_val(s.drop_last()) * 10 + digit_val(s.last())
    }
}

/// Ten to the `n`.
pub open spec fn pow10(n: nat) -> int
    decreases n,
{
    if n == 0 {
        1
    } else {
        10 * pow10((n - 1) as nat)
    }
}

pub proof fn lemma_pow10_pos(n: nat)
    ensures
        pow10(n) >= 1,
    decreases n,
{
    if n > 0 {
        lemma_pow10_pos((n - 1) as nat);
    }
}

/// Powers of ten grow with the exponent.
pub proof fn lemma_pow10_mono(a: nat, b: nat)
    requires
        a <= b,
    ensures
        pow10(a) <= pow10(b),
    decreases b,
{
    if a < b {
        lemma_pow10_mono(a, (b - 1) as nat);
        lemma_pow10_pos((b - 1) as nat);
    }
}

/// A digit string's value is non-negative and below ten to its length.
pub proof fn lemma_digits_val_bound(s: Seq<char>)
    requires
        all_digits(s),
    ensures
        0 <= digits_val(s) < pow10(s.len()),
    decreases s.len(),
{
    if s.len() > 0 {
        assert(all_digits(s.drop_last()));
        lemma_digits_val_bound(s.drop_last());
        assert(is_digit(s.last()));
    }
}

/// Reading one more digit multiplies by ten and adds it.
pub proof fn lemma_digits_val_step(s: Seq<char>, i: int)
    requires
        0 <= i < s.len(),
    ensures
        digits_val(s.take(i + 1)) == digits_val(s.take(i)) * 10 + digit_val(s[i]),
{
    assert(s.take(i + 1).drop_last() =~= s.take(i));
    assert(s.take(i + 1).last() == s[i]);
}

/// Accumulates the decimal digits of `s` between `from` and `to`.
///
/// Returns the digit string's value while it stays within `u64`'s first 63
/// bits; a larger value is reported as `None` (the callers reject any value
/// that large anyway). A non-digit character is reported as `Err`.
fn digit_run(s: &str, from: usize, to: usize) -> (r: Result<Option<u64>, ()>)
    requires
        from <= to <= s@.len(),
    ensures
        match r {
            Ok(Some(v)) => all_digits(s@.subrange(from as int, to as int)) && v
                == digits_val(s@.subrange(from as int, to as int)) && v
                <= 0x8000_0000_0000_0000u64,
            Ok(None) => all_digits(s@.subrange(from as int, to as int)) && digits_val(
                s@.subrange(from as int, to as int),
            ) > 0x8000_0000_0000_0000,
            Err(()) => !all_digits(s@.subrange(from as int, to as int)),
        },
{
    let ghost whole = s@.subrange(from as int, to as int);
    let mut acc: u64 = 0;
    let mut big: bool = false;
    let mut j: usize = from;
    while j < to
        invariant
            from <= j <= to <= s@.len(),
            whole == s@.subrange(from as int, to as int),
            all_digits(whole.take(j - from)),
            !big ==> acc == digits_val(whole.take(j - from)) && acc <= 0x8000_0000_0000_0000u64,
            big ==> digits_val(whole.take(j - from)) > 0x8000_0000_0000_0000,
        decreases to - j,
    {
        let c = s.get_char(j);
        let cv = c as u32;
        assert(whole[j - from] == s@[j as int]);
        if !(48 <= cv && cv <= 57) {
            assert(!is_digit(whole[j - from]));
            return Err(());
        }
        let d: u64 = (cv - 48) as u64;
        proof {
            lemma_digits_val_step(whole, j - from);
            lemma_digits_val_bound(whole.take(j - from));
        }
        if big || acc > 0x0CCC_CCCC_CCCC_CCCCu64 {
            // ten times the accumulator would pass 2^63; the exact value no
            // longer matters, only that it stays too large.
            big = true;
        } else {
            acc = acc * 10 + d;
            if acc > 0x8000_0000_0000_0000u64 {
                big = true;
            }
        }
        j += 1;
    }
    assert(whole.take(to - from) =~= whole);
    if big {
        Ok(None)
    } else {
        Ok(Some(acc))
    }
}

/// Exactly the strings `i32::from_str` accepts: an optional sign followed by
/// one or more decimal digits, whose value fits in an `i32`.
pub open spec fn i32_of(s: Seq<char>) -> Option<i32> {
    if s.len() == 0 {
        None
    } else {
        let neg = s[0] == '-';
        let body = if s[0] == '-' || s[0] == '+' {
            s.drop_first()
        } else {
            s
        };
        if body.len() == 0 || !all_digits(body) {
            None
        } else {
            let m = digits_val(body);
            if neg {
                if m <= 0x8000_0000 {
                    Some((-m) as i32)
                } else {
                    None
                }
            } else {
                if m <= 0x7FFF_FFFF {
                    Some(m as i32)
                } else {
                    None
                }
            }
        }
    }
}

/// Reads a signed decimal integer, as the vendor diagnostic code field is
/// written: an optional sign and decimal digits, rejected when the value
/// does not fit in an `i32`.
pub fn parse_i32(s: &str) -> (r: Option<i32>)
    ensures
        r == i32_of(s@),
{
    let n = s.unicode_len();
    if n == 0 {
        return None;
    }
    let first = s.get_char(0);
    let neg = first == '-';
    let start: usize = if first == '-' || first == '+' {
        1
    } else {
        0
    };
    let ghost body = if first == '-' || first == '+' {
        s@.drop_first()
    } else {
        s@
    };
    assert(body =~= s@.subrange(start as int, n as int));
    if start == n {
        return None;
    }
    match digit_run(s, start, n) {
        Err(()) => None,
        Ok(None) => None,
        Ok(Some(v)) => {
            if neg {
                if v <= 0x8000_0000u64 {
                    Some((-(v as i64)) as i32)
                } else {
                    None
                }
            } else {
                if v <= 0x7FFF_FFFFu64 {
                    Some(v as i32)
                } else {
                    None
                }
            }
        },
    }
}

/// Exactly the strings `u16::from_str` accepts: an optional plus sign and
/// decimal digits, whose value fits in a `u16`.
pub open spec fn u16_of(s: Seq<char>) -> Option<u16> {
    if s.len() == 0 {
        None
    } else {
        let body = if s[0] == '+' {
            s.drop_first()
        } else {
            s
        };
        if body.len() == 0 || !all_digits(body) {
            None
        } else {
            let m = digits_val(body);
            if m <= 0xFFFF {
                Some(m as u16)
            } else {
                None
            }
        }
    }
}

/// Reads an unsigned decimal integer, as the broker port option is written.
pub fn parse_u16(s: &str) -> (r: Option<u16>)
    ensures
        r == u16_of(s@),
{
    let n = s.unicode_len();
    if n == 0 {
        return None;
    }
    let first = s.get_char(0);
    let start: usize = if first == '+' {
        1
    } else {
        0
    };
    let ghost body = if first == '+' {
        s@.drop_first()
    } else {
        s@
    };
    assert(body =~= s@.subrange(start as int, n as int));
    if start == n {
        return None;
    }
    match digit_run(s, start, n) {
        Err(()) => None,
        Ok(None) => None,
        Ok(Some(v)) => {
            if v <= 0xFFFFu64 {
                Some(v as u16)
            } else {
                None
            }
        },
    }
}

/// Count of whitespace characters at the start of `s`.
pub open spec fn leading_spaces(s: Seq<char>) -> int
    decreases s.len(),
{
    if s.len() == 0 || !is_space_char(s[0]) {
        0
    } else {
        1 + leading_spaces(s.drop_first())
    }
}

/// Count of whitespace characters at the end of `s`.
pub open spec fn trailing_spaces(s: Seq<char>) -> int
    decreases s.len(),
{
    if s.len() == 0 || !is_space_char(s.last()) {
        0
    } else {
        1 + trailing_spaces(s.drop_last())
    }
}

pub proof fn lemma_leading_spaces(s: Seq<char>)
    ensures
        0 <= leading_spaces(s) <= s.len(),
        forall|k: int| 0 <= k < leading_spaces(s) ==> is_space_char(s[k]),
        leading_spaces(s) < s.len() ==> !is_space_char(s[leading_spaces(s)]),
    decreases s.len(),
{
    if s.len() > 0 && is_space_char(s[0]) {
        lemma_leading_spaces(s.drop_first());
        assert forall|k: int| 0 <= k < leading_spaces(s) implies is_space_char(s[k]) by {
            if k >= 1 {
                assert(s.drop_first()[k - 1] == s[k]);
            }
        }
        if leading_spaces(s) < s.len() {
            assert(s.drop_first()[leading_spaces(s) - 1] == s[leading_spaces(s)]);
        }
    }
}

pub proof fn lemma_trailing_spaces(s: Seq<char>)
    ensures
        0 <= trailing_spaces(s) <= s.len(),
        forall|k: int| s.len() - trailing_spaces(s) <= k < s.len() ==> is_space_char(s[k]),
        trailing_spaces(s) < s.len() ==> !is_space_char(s[s.len() - trailing_spaces(s) - 1]),
    decreases s.len(),
{
    if s.len() > 0 && is_space_char(s.last()) {
        lemma_trailing_spaces(s.drop_last());
        assert forall|k: int| s.len() - trailing_spaces(s) <= k < s.len() implies is_space_char(
            s[k],
        ) by {
            if k < s.len() - 1 {
                assert(s.drop_last()[k] == s[k]);
            }
        }
        if trailing_spaces(s) < s.len() {
            assert(s.drop_last()[s.len() - trailing_spaces(s) - 1] == s[s.len() - trailing_spaces(
                s,
            ) - 1]);
        }
    }
}

/// `s` with leading and trailing whitespace removed.
pub open spec fn trim_of(s: Seq<char>) -> Seq<char> {
    if leading_spaces(s) == s.len() {
        Seq::empty()
    } else {
        s.subrange(leading_spaces(s), s.len() - trailing_spaces(s))
    }
}

/// Index of the first `'.'` in `b`, or `b.len()` when there is none.
pub open spec fn dot_pos(b: Seq<char>) -> int
    decreases b.len(),
{
    if b.len() == 0 {
        0
    } else if b[0] == '.' {
        0
    } else {
        1 + dot_pos(b.drop_first())
    }
}

pub proof fn lemma_dot_pos(b: Seq<char>)
    ensures
        0 <= dot_pos(b) <= b.len(),
        forall|k: int| 0 <= k < dot_pos(b) ==> b[k] != '.',
        dot_pos(b) < b.len() ==> b[dot_pos(b)] == '.',
    decreases b.len(),
{
    if b.len() > 0 && b[0] != '.' {
        lemma_dot_pos(b.drop_first());
        assert forall|k: int| 0 <= k < dot_pos(b) implies b[k] != '.' by {
            if k >= 1 {
                assert(b.drop_first()[k - 1] == b[k]);
            }
        }
        if dot_pos(b) < b.len() {
            assert(b.drop_first()[dot_pos(b) - 1] == b[dot_pos(b)]);
        }
    }
}

/// Millionths carried by a fractional digit string: the first six digits,
/// padded with zeros on the right.
pub open spec fn frac_val_micro(f: Seq<char>) -> int {
    if f.len() < 6 {
        digits_val(f) * pow10((6 - f.len()) as nat)
    } else {
        digits_val(f.take(6))
    }
}

/// The digits of `b` before the first dot.
pub open spec fn int_part(b: Seq<char>) -> Seq<char> {
    b.take(dot_pos(b))
}

/// The digits of `b` after the first dot (empty when there is no dot).
pub open spec fn frac_part(b: Seq<char>) -> Seq<char> {
    if dot_pos(b) < b.len() {
        b.subrange(dot_pos(b) + 1, b.len() as int)
    } else {
        Seq::empty()
    }
}

/// An unsigned fixed-point body: digits, at most one dot, at least one digit.
pub open spec fn micro_body_ok(b: Seq<char>) -> bool {
    &&& all_digits(int_part(b))
    &&& all_digits(frac_part(b))
    &&& int_part(b).len() + frac_part(b).len() >= 1
}

/// Value of an unsigned fixed-point body, in millionths.
pub open spec fn micro_body_val(b: Seq<char>) -> int {
    digits_val(int_part(b)) * 1_000_000 + frac_val_micro(frac_part(b))
}

/// Fixed-point reading of a trimmed decimal string, in millionths.
pub open spec fn micro_of_trimmed(t: Seq<char>) -> Option<i64> {
    if t.len() == 0 {
        None
    } else {
        let neg = t[0] == '-';
        let body = if t[0] == '-' || t[0] == '+' {
            t.drop_first()
        } else {
            t
        };
        if !micro_body_ok(body) {
            None
        } else {
            let m = micro_body_val(body);
            if neg {
                if m <= 0x8000_0000_0000_0000 {
                    Some((-m) as i64)
                } else {
                    None
                }
            } else {
                if m <= 0x7FFF_FFFF_FFFF_FFFF {
                    Some(m as i64)
                } else {
                    None
                }
            }
        }
    }
}

/// Exactly the decimal strings the engine accepts for a numeric wire field:
/// after trimming whitespace, an optional sign, decimal digits with at most
/// one dot and at least one digit. The value is in millionths, truncated
/// after the sixth fractional digit; it must fit in an `i64`.
pub open spec fn micro_of(s: Seq<char>) -> Option<i64> {
    micro_of_trimmed(trim_of(s))
}

/// Looks up a small power of ten for fractional padding.
fn pow10_small(e: usize) -> (r: u64)
    requires
        e <= 6,
    ensures
        r == pow10(e as nat),
        r <= 1_000_000,
{
    proof {
        reveal_with_fuel(pow10, 7);
    }
    if e == 0 {
        1
    } else if e == 1 {
        10
    } else if e == 2 {
        100
    } else if e == 3 {
        1_000
    } else if e == 4 {
        10_000
    } else if e == 5 {
        100_000
    } else {
        1_000_000
    }
}

/// `c` is ASCII whitespace.
fn is_space(c: char) -> (r: bool)
    ensures
        r == is_space_char(c),
{
    let cv = c as u32;
    c == ' ' || c == '\t' || c == '\n' || c == '\r' || cv == 11 || cv == 12
}

/// Finds the bounds of `s` without leading and trailing whitespace.
fn trim_bounds(s: &str) -> (r: (usize, usize))
    ensures
        r.0 == leading_spaces(s@),
        0 <= r.0 <= s@.len(),
        r.0 == s@.len() ==> r.1 == r.0,
        r.0 < s@.len() ==> r.1 == s@.len() - trailing_spaces(s@) && r.0 < r.1 <= s@.len(),
{
    let n = s.unicode_len();
    proof {
        lemma_leading_spaces(s@);
        lemma_trailing_spaces(s@);
    }
    let mut i0: usize = 0;
    let mut head_done: bool = false;
    while i0 < n && !head_done
        invariant
            0 <= i0 <= n,
            n == s@.len(),
            forall|k: int| 0 <= k < i0 ==> is_space_char(s@[k]),
            head_done ==> i0 < n && !is_space_char(s@[i0 as int]),
        decreases n - i0 + (if head_done { 0int } else { 1int }),
    {
        if is_space(s.get_char(i0)) {
            i0 += 1;
        } else {
            head_done = true;
        }
    }
    if i0 == n {
        assert(leading_spaces(s@) == n);
        return (n, n);
    }
    assert(leading_spaces(s@) == i0);
    let mut i1: usize = n;
    let mut tail_done: bool = false;
    while i1 > i0 + 1 && !tail_done
        invariant
            i0 + 1 <= i1 <= n,
            n == s@.len(),
            forall|k: int| i1 <= k < n ==> is_space_char(s@[k]),
            tail_done ==> !is_space_char(s@[i1 - 1]),
        decreases i1 + (if tail_done { 0int } else { 1int }),
    {
        if is_space(s.get_char(i1 - 1)) {
            i1 -= 1;
        } else {
            tail_done = true;
        }
    }
    assert(!is_space_char(s@[i1 - 1]));
    assert(trailing_spaces(s@) == n - i1);
    (i0, i1)
}

/// Reads the fractional digits between `from` and `to` as millionths: the
/// first six digits, padded with zeros on the right.
fn frac_micro(s: &str, from: usize, to: usize) -> (r: Option<u64>)
    requires
        from <= to <= s@.len(),
    ensures
        match r {
            Some(v) => all_digits(s@.subrange(from as int, to as int)) && v == frac_val_micro(
                s@.subrange(from as int, to as int),
            ) && v < 1_000_000,
            None => !all_digits(s@.subrange(from as int, to as int)),
        },
{
    let ghost f = s@.subrange(from as int, to as int);
    let mut facc: u64 = 0;
    let mut fseen: usize = 0;
    let mut k: usize = from;
    while k < to
        invariant
            from <= k <= to <= s@.len(),
            f == s@.subrange(from as int, to as int),
            fseen == if k - from < 6 {
                k - from
            } else {
                6
            },
            all_digits(f.take(k - from)),
            facc == digits_val(f.take(fseen as int)),
            facc < 1_000_000,
        decreases to - k,
    {
        let c = s.get_char(k);
        let cv = c as u32;
        assert(f[k - from] == s@[k as int]);
        if !(48 <= cv && cv <= 57) {
            assert(!is_digit(f[k - from]));
            return None;
        }
        proof {
            lemma_digits_val_step(f, k - from);
            if fseen < 6 {
                assert(f.take(fseen as int) == f.take(k - from));
                lemma_digits_val_bound(f.take(fseen as int));
                lemma_pow10_mono(fseen as nat, 5);
                assert(pow10(5) == 100_000) by {
                    reveal_with_fuel(pow10, 7);
                }
            }
        }
        if fseen < 6 {
            facc = facc * 10 + (cv - 48) as u64;
            fseen += 1;
        }
        k += 1;
    }
    assert(f.take((to - from) as int) =~= f);
    assert(all_digits(f));
    let fpad: usize = 6 - fseen;
    let pw = pow10_small(fpad);
    proof {
        assert(facc * pw < 1_000_000_000_000) by (nonlinear_arith)
            requires
                facc < 1_000_000,
                0 <= pw <= 1_000_000,
        ;
    }
    let v: u64 = facc * pw;
    proof {
        if f.len() >= 6 {
            assert(fseen == 6);
            assert(pw == 1) by {
                reveal_with_fuel(pow10, 1);
            }
            assert(v == digits_val(f.take(6)));
            assert(all_digits(f.take(6)));
            lemma_digits_val_bound(f.take(6));
            assert(pow10(6) == 1_000_000) by {
                reveal_with_fuel(pow10, 7);
            }
        } else {
            assert(fseen == f.len());
            assert(f.take(fseen as int) =~= f);
            assert(facc == digits_val(f));
            assert(pw == pow10((6 - f.len()) as nat));
            lemma_digits_val_bound(f);
            lemma_pow10_pos((6 - f.len()) as nat);
            assert(digits_val(f) * pow10((6 - f.len()) as nat) <= pow10(f.len()) * pow10(
                (6 - f.len()) as nat,
            ) - pow10((6 - f.len()) as nat)) by (nonlinear_arith)
                requires
                    digits_val(f) <= pow10(f.len()) - 1,
                    pow10((6 - f.len()) as nat) >= 1,
            ;
            lemma_pow10_mul(f.len(), (6 - f.len()) as nat);
            assert(pow10(6) == 1_000_000) by {
                reveal_with_fuel(pow10, 7);
            }
        }
    }
    Some(v)
}

/// Reads a numeric wire field as a fixed-point number of millionths.
///
/// The text is trimmed, then parsed as an optionally signed decimal with at
/// most one dot; fractional digits beyond the sixth are dropped. Anything
/// else, and any value that does not fit in an `i64` of millionths, reads as
/// `None`. The grammar is plain fixed-point only: exponent notation
/// (`1e3`) and the infinity and not-a-number words are not numbers here,
/// so such a field counts as absent and defaults to zero.
#[verifier::rlimit(60)]
pub fn parse_micro(s: &str) -> (r: Option<i64>)
    ensures
        r == micro_of(s@),
{
    let n = s.unicode_len();
    let (i0, i1) = trim_bounds(s);
    if i0 == n {
        return None;
    }
    let ghost t = trim_of(s@);
    assert(t =~= s@.subrange(i0 as int, i1 as int));

    // Optional sign.
    let c0 = s.get_char(i0);
    let neg = c0 == '-';
    let start: usize = if c0 == '-' || c0 == '+' {
        i0 + 1
    } else {
        i0
    };
    let ghost body = if c0 == '-' || c0 == '+' {
        t.drop_first()
    } else {
        t
    };
    assert(body =~= s@.subrange(start as int, i1 as int));
    proof {
        lemma_dot_pos(body);
    }

    // Integer digits, up to a dot or the end.
    let mut acc: u64 = 0;
    let mut big: bool = false;
    let mut p: usize = start;
    let mut dotted: bool = false;
    while p < i1 && !dotted
        invariant
            start <= p <= i1 <= n,
            n == s@.len(),
            i0 < i1 <= n,
            t == trim_of(s@),
            t =~= s@.subrange(i0 as int, i1 as int),
            t.len() > 0,
            neg == (t[0] == '-'),
            body == (if t[0] == '-' || t[0] == '+' {
                t.drop_first()
            } else {
                t
            }),
            body =~= s@.subrange(start as int, i1 as int),
            all_digits(body.take(p - start)),
            dotted ==> p < i1 && body[p - start] == '.',
            !big ==> acc == digits_val(body.take(p - start)) && acc <= 0x8000_0000_0000_0000u64,
            big ==> digits_val(body.take(p - start)) > 0x8000_0000_0000_0000,
        decreases i1 - p + (if dotted { 0int } else { 1int }),
    {
        let c = s.get_char(p);
        let cv = c as u32;
        assert(body[p - start] == s@[p as int]);
        if 48 <= cv && cv <= 57 {
            let d: u64 = (cv - 48) as u64;
            proof {
                lemma_digits_val_step(body, p - start);
                lemma_digits_val_bound(body.take(p - start));
            }
            if big || acc > 0x0CCC_CCCC_CCCC_CCCCu64 {
                // ten times the accumulator would pass 2^63; the exact value
                // no longer matters, only that it stays too large.
                big = true;
            } else {
                acc = acc * 10 + d;
                if acc > 0x8000_0000_0000_0000u64 {
                    big = true;
                }
            }
            p += 1;
        } else if c == '.' {
            dotted = true;
        } else {
            // Neither digit nor dot: the integer part is not all digits.
            proof {
                lemma_dot_pos(body);
                assert forall|k: int| 0 <= k < p - start implies body[k] != '.' by {
                    assert(is_digit(body.take(p - start)[k]));
                }
                assert(dot_pos(body) > p - start);
                assert(!is_digit(int_part(body)[p - start]));
                assert(!micro_body_ok(body));
            }
            return None;
        }
    }
    proof {
        assert forall|k: int| 0 <= k < p - start implies body[k] != '.' by {
            assert(is_digit(body.take(p - start)[k]));
        }
    }
    assert(dot_pos(body) == p - start);
    assert(int_part(body) =~= body.take(p - start));
    let int_digits: usize = p - start;

    // Fractional digits after the dot, when present.
    let ghost frac = frac_part(body);
    let mut fmicro: u64 = 0;
    let mut frac_digits: usize = 0;
    if dotted {
        let fstart: usize = p + 1;
        assert(frac =~= s@.subrange(fstart as int, i1 as int));
        match frac_micro(s, fstart, i1) {
            None => {
                assert(!all_digits(frac_part(body)));
                return None;
            },
            Some(v) => {
                fmicro = v;
                frac_digits = i1 - fstart;
            },
        }
    } else {
        assert(frac =~= Seq::<char>::empty());
    }
    assert(all_digits(frac));
    assert(fmicro == frac_val_micro(frac));
    assert(fmicro < 1_000_000);

    // At least one digit somewhere.
    if int_digits == 0 && frac_digits == 0 {
        assert(int_part(body).len() + frac_part(body).len() == 0);
        return None;
    }
    assert(micro_body_ok(body));

    // Combine, watching the i64 range.
    if big {
        proof {
            let im = digits_val(int_part(body));
            assert(im * 1_000_000 >= im * 1) by (nonlinear_arith)
                requires
                    im >= 0,
            ;
            assert(micro_body_val(body) > 0x8000_0000_0000_0000);
        }
        return None;
    }
    let m: u128 = (acc as u128) * 1_000_000 + (fmicro as u128);
    assert(m == micro_body_val(body));
    if neg {
        if m <= 0x8000_0000_0000_0000u128 {
            Some((-(m as i128)) as i64)
        } else {
            None
        }
    } else {
        if m <= 0x7FFF_FFFF_FFFF_FFFFu128 {
            Some(m as i64)
        } else {
            None
        }
    }
}

/// Powers of ten multiply when exponents add.
pub proof fn lemma_pow10_mul(a: nat, b: nat)
    ensures
        pow10(a) * pow10(b) == pow10(a + b),
    decreases a,
{
    if a == 0 {
        assert(pow10(0) * pow10(b) == pow10(b));
    } else {
        lemma_pow10_mul((a - 1) as nat, b);
        assert(pow10(a) * pow10(b) == 10 * (pow10((a - 1) as nat) * pow10(b)))
            by (nonlinear_arith)
            requires
                pow10(a) == 10 * pow10((a - 1) as nat),
        ;
    }
}

} // verus!
