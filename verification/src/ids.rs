//! Event and trip identifiers.
//!
//! An event carries its id as UUID text; the engine keeps ids as plain
//! 128-bit numbers. The reader accepts the hyphenated 8-4-4-4-12 form, the
//! plain 32-digit form, the braced form and the `urn:uuid:` form, upper or
//! lower case; anything else falls back to a freshly drawn random id, so a
//! malformed id never blocks an event.

use vstd::prelude::*;

verus! {

/// `c` is an ASCII hexadecimal digit.
pub open spec fn is_hex(c: char) -> bool {
    (48 <= c as u32 && c as u32 <= 57) || (97 <= c as u32 && c as u32 <= 102) || (65 <= c as u32
        && c as u32 <= 70)
}

/// Numeric value of a hexadecimal digit.
pub open spec fn hex_val(c: char) -> int {
    if 48 <= c as u32 && c as u32 <= 57 {
        c as u32 - 48
    } else if 97 <= c as u32 && c as u32 <= 102 {
        c as u32 - 87
    } else {
        c as u32 - 55
    }
}

/// Every character of `s` is a hexadecimal digit.
pub open spec fn all_hex(s: Seq<char>) -> bool {
    forall|i: int| 0 <= i < s.len() ==> is_hex(s[i])
}

/// Value of a hexadecimal digit string, most significant digit first.
pub open spec fn hex_digits_val(s: Seq<char>) -> int
    decreases s.len(),
{
    if s.len() == 0 {
        0
    } else {
        hex_digits_val(s.drop_last()) * 16 + hex_val(s.last())
    }
}

/// Sixteen to the `n`.
pub open spec fn pow16(n: nat) -> int
    decreases n,
{
    if n == 0 {
        1
    } else {
        16 * pow16((n - 1) as nat)
    }
}

pub proof fn lemma_pow16_pos(n: nat)
    ensures
        pow16(n) >= 1,
    decreases n,
{
    if n > 0 {
        lemma_pow16_pos((n - 1) as nat);
    }
}

/// A hex string's value is non-negative and below sixteen to its length.
pub proof fn lemma_hex_val_bound(s: Seq<char>)
    requires
        all_hex(s),
    ensures
        0 <= hex_digits_val(s) < pow16(s.len()),
    decreases s.len(),
{
    if s.len() > 0 {
        assert(all_hex(s.drop_last()));
        lemma_hex_val_bound(s.drop_last());
        assert(is_hex(s.last()));
    }
}

/// Reading one more hex digit multiplies by sixteen and adds it.
pub proof fn lemma_hex_val_step(s: Seq<char>, i: int)
    requires
        0 <= i < s.len(),
    ensures
        hex_digits_val(s.take(i + 1)) == hex_digits_val(s.take(i)) * 16 + hex_val(s[i]),
{
    assert(s.take(i + 1).drop_last() =~= s.take(i));
    assert(s.take(i + 1).last() == s[i]);
}

/// Powers of sixteen multiply when exponents add.
pub proof fn lemma_pow16_mul(a: nat, b: nat)
    ensures
        pow16(a) * pow16(b) == pow16(a + b),
    decreases a,
{
    if a == 0 {
        assert(pow16(0) * pow16(b) == pow16(b));
    } else {
        lemma_pow16_mul((a - 1) as nat, b);
        assert(pow16(a) * pow16(b) == 16 * (pow16((a - 1) as nat) * pow16(b))) by (nonlinear_arith)
            requires
                pow16(a) == 16 * pow16((a - 1) as nat),
        ;
    }
}

/// Splitting a hex string splits its value at the corresponding power.
pub proof fn lemma_hex_val_concat(a: Seq<char>, b: Seq<char>)
    ensures
        hex_digits_val(a + b) == hex_digits_val(a) * pow16(b.len()) + hex_digits_val(b),
    decreases b.len(),
{
    if b.len() == 0 {
        assert(a + b =~= a);
    } else {
        lemma_hex_val_concat(a, b.drop_last());
        assert((a + b).drop_last() =~= a + b.drop_last());
        assert((a + b).last() == b.last());
        assert(hex_digits_val(a + b) == (hex_digits_val(a) * pow16((b.len() - 1) as nat)
            + hex_digits_val(b.drop_last())) * 16 + hex_val(b.last()));
        assert(hex_digits_val(a) * pow16((b.len() - 1) as nat) * 16 == hex_digits_val(a) * pow16(
            b.len(),
        )) by (nonlinear_arith)
            requires
                pow16((b.len() - 1) as nat) * 16 == pow16(b.len()),
        ;
    }
}

/// Sixteen to the thirty-second is the full 128-bit range.
pub proof fn lemma_pow16_128()
    ensures
        pow16(32) == 0x1_0000_0000_0000_0000_0000_0000_0000_0000,
{
    assert(pow16(32) == 0x1_0000_0000_0000_0000_0000_0000_0000_0000) by {
        reveal_with_fuel(pow16, 33);
    }
}

/// Reads the hex digits of `s` between `from` and `to` as a number.
fn hex_run(s: &str, from: usize, to: usize) -> (r: Option<u128>)
    requires
        from <= to <= s@.len(),
        to - from <= 32,
        to <= 45,
    ensures
        match r {
            Some(v) => all_hex(s@.subrange(from as int, to as int)) && v == hex_digits_val(
                s@.subrange(from as int, to as int),
            ),
            None => !all_hex(s@.subrange(from as int, to as int)),
        },
{
    let ghost h = s@.subrange(from as int, to as int);
    proof {
        lemma_pow16_128();
    }
    let mut acc: u128 = 0;
    let mut j: usize = from;
    while j < to
        invariant
            from <= j <= to <= s@.len(),
            to - from <= 32,
            to <= 45,
            h == s@.subrange(from as int, to as int),
            all_hex(h.take(j - from)),
            acc == hex_digits_val(h.take(j - from)),
            acc < pow16((j - from) as nat),
            pow16(32) == 0x1_0000_0000_0000_0000_0000_0000_0000_0000,
        decreases to - j,
    {
        let c = s.get_char(j);
        let cv = c as u32;
        assert(h[j - from] == s@[j as int]);
        let d: u128 = if 48 <= cv && cv <= 57 {
            (cv - 48) as u128
        } else if 97 <= cv && cv <= 102 {
            (cv - 87) as u128
        } else if 65 <= cv && cv <= 70 {
            (cv - 55) as u128
        } else {
            assert(!is_hex(h[j - from]));
            return None;
        };
        proof {
            lemma_hex_val_step(h, j - from);
            lemma_pow16_mono((j - from + 1) as nat, 32);
            assert(acc * 16 + 16 <= pow16((j - from) as nat) * 16) by (nonlinear_arith)
                requires
                    acc + 1 <= pow16((j - from) as nat),
            ;
        }
        acc = acc * 16 + d;
        j += 1;
    }
    assert(h.take(to - from) =~= h);
    Some(acc)
}

/// Powers of sixteen grow with the exponent.
pub proof fn lemma_pow16_mono(a: nat, b: nat)
    requires
        a <= b,
    ensures
        pow16(a) <= pow16(b),
    decreases b,
{
    if a < b {
        lemma_pow16_mono(a, (b - 1) as nat);
        lemma_pow16_pos((b - 1) as nat);
    }
}

/// The 32 hex digits of a hyphenated UUID, hyphens removed.
pub open spec fn uuid_digits(s: Seq<char>) -> Seq<char> {
    s.subrange(0, 8) + s.subrange(9, 13) + s.subrange(14, 18) + s.subrange(19, 23) + s.subrange(
        24,
        36,
    )
}

/// A hyphenated 8-4-4-4-12 UUID body, upper or lower case.
pub open spec fn hyphenated_of(t: Seq<char>) -> Option<u128> {
    if t.len() == 36 && t[8] == '-' && t[13] == '-' && t[18] == '-' && t[23] == '-' && all_hex(
        uuid_digits(t),
    ) {
        Some(hex_digits_val(uuid_digits(t)) as u128)
    } else {
        None
    }
}

/// `c` equals `l` up to ASCII case (`l` lowercase or punctuation).
pub open spec fn ci_char(c: char, l: char) -> bool {
    c == l || (65 <= c as u32 && c as u32 <= 90 && c as u32 + 32 == l as u32)
}

/// The nine characters of the URN marker, compared case-insensitively.
pub open spec fn urn_prefix_ok(s: Seq<char>) -> bool {
    &&& ci_char(s[0], 'u')
    &&& ci_char(s[1], 'r')
    &&& ci_char(s[2], 'n')
    &&& ci_char(s[3], ':')
    &&& ci_char(s[4], 'u')
    &&& ci_char(s[5], 'u')
    &&& ci_char(s[6], 'i')
    &&& ci_char(s[7], 'd')
    &&& ci_char(s[8], ':')
}

/// Exactly the strings the engine accepts as a UUID, the same shapes the
/// event sources emit ids in: the hyphenated 8-4-4-4-12 form, 32 plain hex
/// digits, the hyphenated form in braces, or behind a case-insensitive
/// `urn:uuid:` marker; hex digits in either case throughout.
pub open spec fn uuid_of(s: Seq<char>) -> Option<u128> {
    if s.len() == 36 {
        hyphenated_of(s)
    } else if s.len() == 32 {
        if all_hex(s) {
            Some(hex_digits_val(s) as u128)
        } else {
            None
        }
    } else if s.len() == 38 {
        if s[0] == '{' && s[37] == '}' {
            hyphenated_of(s.subrange(1, 37))
        } else {
            None
        }
    } else if s.len() == 45 {
        if urn_prefix_ok(s) {
            hyphenated_of(s.subrange(9, 45))
        } else {
            None
        }
    } else {
        None
    }
}

/// `c` equals `l` up to ASCII case.
fn ci_check(c: char, l: char) -> (r: bool)
    ensures
        r == ci_char(c, l),
{
    let cv = c as u32;
    c == l || (65 <= cv && cv <= 90 && cv + 32 == l as u32)
}

/// Reads the hyphenated UUID body starting at `off`.
fn hyphenated_run(s: &str, off: usize) -> (r: Option<u128>)
    requires
        off <= 9,
        off + 36 <= s@.len(),
    ensures
        r == hyphenated_of(s@.subrange(off as int, off + 36)),
{
    let ghost t = s@.subrange(off as int, off + 36);
    if !(s.get_char(off + 8) == '-' && s.get_char(off + 13) == '-' && s.get_char(off + 18) == '-'
        && s.get_char(off + 23) == '-') {
        return None;
    }
    let ghost digits = uuid_digits(t);
    proof {
        assert(t.subrange(0, 8) =~= s@.subrange(off as int, off + 8));
        assert(t.subrange(9, 13) =~= s@.subrange(off + 9, off + 13));
        assert(t.subrange(14, 18) =~= s@.subrange(off + 14, off + 18));
        assert(t.subrange(19, 23) =~= s@.subrange(off + 19, off + 23));
        assert(t.subrange(24, 36) =~= s@.subrange(off + 24, off + 36));
    }
    let a = match hex_run(s, off, off + 8) {
        Some(v) => v,
        None => {
            assert(!all_hex(digits)) by {
                let ghost w = choose|i: int| 0 <= i < 8 && !is_hex(t.subrange(0, 8)[i]);
                assert(digits[w] == t.subrange(0, 8)[w]);
            }
            return None;
        },
    };
    let b = match hex_run(s, off + 9, off + 13) {
        Some(v) => v,
        None => {
            assert(!all_hex(digits)) by {
                let ghost w = choose|i: int| 0 <= i < 4 && !is_hex(t.subrange(9, 13)[i]);
                assert(digits[8 + w] == t.subrange(9, 13)[w]);
            }
            return None;
        },
    };
    let c = match hex_run(s, off + 14, off + 18) {
        Some(v) => v,
        None => {
            assert(!all_hex(digits)) by {
                let ghost w = choose|i: int| 0 <= i < 4 && !is_hex(t.subrange(14, 18)[i]);
                assert(digits[12 + w] == t.subrange(14, 18)[w]);
            }
            return None;
        },
    };
    let d = match hex_run(s, off + 19, off + 23) {
        Some(v) => v,
        None => {
            assert(!all_hex(digits)) by {
                let ghost w = choose|i: int| 0 <= i < 4 && !is_hex(t.subrange(19, 23)[i]);
                assert(digits[16 + w] == t.subrange(19, 23)[w]);
            }
            return None;
        },
    };
    let e = match hex_run(s, off + 24, off + 36) {
        Some(v) => v,
        None => {
            assert(!all_hex(digits)) by {
                let ghost w = choose|i: int| 0 <= i < 12 && !is_hex(t.subrange(24, 36)[i]);
                assert(digits[20 + w] == t.subrange(24, 36)[w]);
            }
            return None;
        },
    };
    proof {
        lemma_pow16_128();
        lemma_hex_val_bound(t.subrange(0, 8));
        lemma_hex_val_bound(t.subrange(9, 13));
        lemma_hex_val_bound(t.subrange(14, 18));
        lemma_hex_val_bound(t.subrange(19, 23));
        lemma_hex_val_bound(t.subrange(24, 36));
        lemma_pow16_combine(a as int, b as int, 8, 4);
        lemma_hex_val_concat(t.subrange(0, 8), t.subrange(9, 13));
        lemma_pow16_combine(a as int * pow16(4) + b as int, c as int, 12, 4);
        lemma_hex_val_concat(t.subrange(0, 8) + t.subrange(9, 13), t.subrange(14, 18));
        lemma_pow16_combine((a as int * pow16(4) + b) * pow16(4) + c, d as int, 16, 4);
        lemma_hex_val_concat(
            t.subrange(0, 8) + t.subrange(9, 13) + t.subrange(14, 18),
            t.subrange(19, 23),
        );
        lemma_pow16_combine(
            ((a as int * pow16(4) + b) * pow16(4) + c) * pow16(4) + d,
            e as int,
            20,
            12,
        );
        lemma_hex_val_concat(
            t.subrange(0, 8) + t.subrange(9, 13) + t.subrange(14, 18) + t.subrange(19, 23),
            t.subrange(24, 36),
        );
        assert(pow16(4) == 0x1_0000) by {
            reveal_with_fuel(pow16, 13);
        }
        assert(pow16(12) == 0x1_0000_0000_0000) by {
            reveal_with_fuel(pow16, 13);
        }
    }
    let p4: u128 = 0x1_0000;
    let p12: u128 = 0x1_0000_0000_0000;
    let v: u128 = (((a * p4 + b) * p4 + c) * p4 + d) * p12 + e;
    assert(v == hex_digits_val(uuid_digits(t)));
    Some(v)
}

/// Reads a UUID as a 128-bit number, in any of the shapes `uuid_of` names:
/// hyphenated, plain, braced or URN, upper or lower case.
pub fn parse_uuid(s: &str) -> (r: Option<u128>)
    ensures
        r == uuid_of(s@),
{
    let n = s.unicode_len();
    if n == 36 {
        assert(s@.subrange(0, 36) =~= s@);
        hyphenated_run(s, 0)
    } else if n == 32 {
        match hex_run(s, 0, 32) {
            Some(v) => {
                assert(s@.subrange(0, 32) =~= s@);
                Some(v)
            },
            None => {
                assert(s@.subrange(0, 32) =~= s@);
                None
            },
        }
    } else if n == 38 {
        if s.get_char(0) == '{' && s.get_char(37) == '}' {
            hyphenated_run(s, 1)
        } else {
            None
        }
    } else if n == 45 {
        if ci_check(s.get_char(0), 'u') && ci_check(s.get_char(1), 'r') && ci_check(
            s.get_char(2),
            'n',
        ) && ci_check(s.get_char(3), ':') && ci_check(s.get_char(4), 'u') && ci_check(
            s.get_char(5),
            'u',
        ) && ci_check(s.get_char(6), 'i') && ci_check(s.get_char(7), 'd') && ci_check(
            s.get_char(8),
            ':',
        ) {
            hyphenated_run(s, 9)
        } else {
            None
        }
    } else {
        None
    }
}

/// Relies on `uuid::Uuid::new_v4`: draws a fresh random id from the
/// operating system's randomness source (which aborts the process only if
/// that source itself fails). Nothing is promised of the value; every
/// caller handles any outcome.
#[verifier::external_body]
pub(crate) fn fresh_uuid() -> u128 {
    uuid::Uuid::new_v4().as_u128()
}

/// A value below sixteen to `x`, shifted by `y` places and extended with a
/// value below sixteen to `y`, stays below sixteen to `x + y`.
pub proof fn lemma_pow16_combine(hi: int, lo: int, x: nat, y: nat)
    requires
        0 <= hi < pow16(x),
        0 <= lo < pow16(y),
    ensures
        0 <= hi * pow16(y) + lo < pow16(x + y),
{
    lemma_pow16_mul(x, y);
    lemma_pow16_pos(y);
    assert(hi * pow16(y) + lo < pow16(x) * pow16(y)) by (nonlinear_arith)
        requires
            hi <= pow16(x) - 1,
            0 <= lo < pow16(y),
            pow16(y) >= 1,
    ;
    assert(hi * pow16(y) >= 0) by (nonlinear_arith)
        requires
            hi >= 0,
            pow16(y) >= 1,
    ;
}

} // verus!
