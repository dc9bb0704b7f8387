//! Derivation of the two symmetric keys of the protocol.
//!
//! Both keys are pure functions of plain strings: the session key reads fixed
//! character ranges of the two session identifiers, the time key reads fixed
//! character ranges of a decimal timestamp.

use crate::error::SignError;
use vstd::prelude::*;

verus! {

/// The suffix of every session key.
pub const RN_FIXED: &'static str = "3e0783d6891a4a3e9521dcb6bb341560";

/// The suffix of every time key.
pub const DYNAMIC_FIXED: &'static str = "402881ea7c39c5d5017c39d143a8062b";

pub open spec fn is_digit(c: char) -> bool {
    '0' <= c && c <= '9'
}

pub open spec fn digit_value(c: char) -> int {
    c as int - '0' as int
}

pub open spec fn digit_char(d: int) -> char {
    seq!['0', '1', '2', '3', '4', '5', '6', '7', '8', '9'][d]
}

/// The value of a string of decimal digits (zero for the empty string).
pub open spec fn digits_value(s: Seq<char>) -> int
    decreases s.len(),
{
    if s.len() == 0 {
        0
    } else {
        digits_value(s.drop_last()) * 10 + digit_value(s.last())
    }
}

pub open spec fn all_digits(s: Seq<char>) -> bool {
    forall|i: int| 0 <= i < s.len() ==> is_digit(#[trigger] s[i])
}

/// A decimal integer with an optional leading `+` or `-`, as Rust's integer
/// parsers read it; `None` where the text is not of that form.
pub open spec fn parse_int(s: Seq<char>) -> Option<int> {
    if s.len() > 0 && (s[0] == '+' || s[0] == '-') {
        let rest = s.drop_first();
        if rest.len() > 0 && all_digits(rest) {
            if s[0] == '-' {
                Some(-digits_value(rest))
            } else {
                Some(digits_value(rest))
            }
        } else {
            None
        }
    } else if s.len() > 0 && all_digits(s) {
        Some(digits_value(s))
    } else {
        None
    }
}

/// The decimal digits of `n`, most significant first, without leading zeros.
pub open spec fn decimal(n: nat) -> Seq<char>
    decreases n,
{
    if n < 10 {
        seq![digit_char(n as int)]
    } else {
        decimal(n / 10).push(digit_char(n as int % 10))
    }
}

/// The decimal text of a signed integer.
pub open spec fn signed_decimal(n: int) -> Seq<char> {
    if n < 0 {
        seq!['-'] + decimal((-n) as nat)
    } else {
        decimal(n as nat)
    }
}

pub open spec fn pow2(d: nat) -> nat
    decreases d,
{
    if d == 0 {
        1
    } else {
        2 * pow2((d - 1) as nat)
    }
}

pub open spec fn abs(v: int) -> nat {
    if v < 0 {
        (-v) as nat
    } else {
        v as nat
    }
}

/// The session key of two session identifiers: characters `[3, 6)` of `a1`,
/// `[4, 7)` of `a2` and `[9, 12)` of `a1`, then the fixed suffix.
pub open spec fn rn_key_text(a1: Seq<char>, a2: Seq<char>) -> Seq<char> {
    a1.subrange(3, 6) + a2.subrange(4, 7) + a1.subrange(9, 12) + RN_FIXED@
}

/// The session key, or why there is none.
pub open spec fn rn_key_result(a1: Seq<char>, a2: Seq<char>) -> Result<Seq<char>, SignError> {
    if a1.len() < 12 || a2.len() < 12 {
        Err(SignError::KeyOutOfRange)
    } else {
        Ok(rn_key_text(a1, a2))
    }
}

/// The time key of a timestamp text: the absolute difference of the numbers
/// at characters `[2, 5)` and `[4, 8)`, shifted left by the last digit, in
/// decimal, then the fixed suffix.
pub open spec fn dynamic_key_result(t: Seq<char>) -> Result<Seq<char>, SignError> {
    if t.len() < 8 {
        Err(SignError::KeyOutOfRange)
    } else {
        match (parse_int(t.subrange(2, 5)), parse_int(t.subrange(4, 8))) {
            (Some(dest), Some(nptr)) => if is_digit(t.last()) {
                Ok(
                    decimal(abs(dest - nptr) * pow2(digit_value(t.last()) as nat))
                        + DYNAMIC_FIXED@,
                )
            } else {
                Err(SignError::KeyMalformed)
            },
            _ => Err(SignError::KeyMalformed),
        }
    }
}

pub open spec fn pow10(k: nat) -> nat
    decreases k,
{
    if k == 0 {
        1
    } else {
        10 * pow10((k - 1) as nat)
    }
}

/// The one-character text of a decimal digit.
fn digit_text(d: u64) -> (r: &'static str)
    requires
        d < 10,
    ensures
        r@ == seq![digit_char(d as int)],
{
    proof {
        reveal_strlit("0");
        reveal_strlit("1");
        reveal_strlit("2");
        reveal_strlit("3");
        reveal_strlit("4");
        reveal_strlit("5");
        reveal_strlit("6");
        reveal_strlit("7");
        reveal_strlit("8");
        reveal_strlit("9");
    }
    match d {
        0 => "0",
        1 => "1",
        2 => "2",
        3 => "3",
        4 => "4",
        5 => "5",
        6 => "6",
        7 => "7",
        8 => "8",
        _ => "9",
    }
}

/// Appends the decimal digits of `n` to `out`.
pub fn push_decimal(out: &mut String, n: u64)
    ensures
        final(out)@ == old(out)@ + decimal(n as nat),
    decreases n,
{
    if n >= 10 {
        push_decimal(out, n / 10);
        out.append(digit_text(n % 10));
        assert(final(out)@ =~= old(out)@ + decimal(n as nat));
    } else {
        out.append(digit_text(n));
        assert(final(out)@ =~= old(out)@ + decimal(n as nat));
    }
}

/// The decimal text of a signed integer.
pub fn signed_decimal_text(n: i64) -> (r: String)
    ensures
        r@ == signed_decimal(n as int),
{
    let mut out = String::new();
    if n < 0 {
        out.append("-");
        let m: u64 = (-(n as i128)) as u64;
        push_decimal(&mut out, m);
        proof {
            reveal_strlit("-");
        }
    } else {
        push_decimal(&mut out, n as u64);
    }
    assert(out@ =~= signed_decimal(n as int));
    out
}

/// Reads a short decimal integer with an optional sign.
fn parse_short_int(s: &str) -> (r: Option<i64>)
    requires
        s@.len() <= 4,
    ensures
        match r {
            Some(v) => parse_int(s@) == Some(v as int) && -9999 <= v <= 9999,
            None => parse_int(s@) is None,
        },
{
    let n = s.unicode_len();
    let mut start: usize = 0;
    let mut negative = false;
    if n > 0 {
        let c = s.get_char(0);
        if c == '+' || c == '-' {
            negative = c == '-';
            start = 1;
        }
    }
    if start >= n {
        return None;
    }
    let ghost body = s@.subrange(start as int, n as int);
    let mut v: i64 = 0;
    let mut i: usize = start;
    while i < n
        invariant
            start <= i <= n,
            n == s@.len(),
            n <= 4,
            body == s@.subrange(start as int, n as int),
            start == 0 || start == 1,
            start == 0 ==> !(s@[0] == '+' || s@[0] == '-'),
            start == 1 ==> (s@[0] == '+' || s@[0] == '-'),
            negative == (start == 1 && s@[0] == '-'),
            all_digits(s@.subrange(start as int, i as int)),
            v == digits_value(s@.subrange(start as int, i as int)),
            0 <= v < pow10((i - start) as nat),
        decreases n - i,
    {
        let c = s.get_char(i);
        if !('0' <= c && c <= '9') {
            proof {
                assert(!is_digit(s@[i as int]));
                if start == 1 {
                    assert(s@.drop_first()[i - 1] == s@[i as int]);
                } else {
                    assert(!(s@[0] == '+' || s@[0] == '-'));
                }
            }
            return None;
        }
        let ghost prev = s@.subrange(start as int, i as int);
        let ghost next = s@.subrange(start as int, i + 1);
        proof {
            lemma_pow10_small((i - start) as nat);
            assert(next.drop_last() =~= prev);
            assert(next.last() == c);
            assert(0 <= v * 10 + (c as int - '0' as int) < 10 * pow10((i - start) as nat))
                by (nonlinear_arith)
                requires
                    0 <= v < pow10((i - start) as nat),
                    0 <= c as int - '0' as int <= 9,
            ;
            assert(pow10((i + 1 - start) as nat) == 10 * pow10((i - start) as nat));
        }
        v = v * 10 + (c as u32 - '0' as u32) as i64;
        i = i + 1;
    }
    proof {
        lemma_pow10_small((n - start) as nat);
        if start == 1 {
            assert(s@.drop_first() =~= s@.subrange(1, n as int));
        } else {
            assert(s@ =~= s@.subrange(0, n as int));
        }
    }
    if negative {
        Some(-v)
    } else {
        Some(v)
    }
}

/// Derives the session key from the two session identifiers.
pub fn rn_key(a1: &str, a2: &str) -> (r: Result<String, SignError>)
    ensures
        match r {
            Ok(k) => rn_key_result(a1@, a2@) == Ok::<Seq<char>, SignError>(k@),
            Err(e) => rn_key_result(a1@, a2@) == Err::<Seq<char>, SignError>(e),
        },
{
    if a1.unicode_len() < 12 || a2.unicode_len() < 12 {
        return Err(SignError::KeyOutOfRange);
    }
    let mut out = String::from_str(a1.substring_char(3, 6));
    out.append(a2.substring_char(4, 7));
    out.append(a1.substring_char(9, 12));
    out.append(RN_FIXED);
    assert(out@ =~= rn_key_text(a1@, a2@));
    Ok(out)
}

/// Derives the time key from the decimal text of a timestamp.
pub fn dynamic_key(t: &str) -> (r: Result<String, SignError>)
    ensures
        match r {
            Ok(k) => dynamic_key_result(t@) == Ok::<Seq<char>, SignError>(k@),
            Err(e) => dynamic_key_result(t@) == Err::<Seq<char>, SignError>(e),
        },
{
    let n = t.unicode_len();
    if n < 8 {
        return Err(SignError::KeyOutOfRange);
    }
    let dest = match parse_short_int(t.substring_char(2, 5)) {
        Some(v) => v,
        None => return Err(SignError::KeyMalformed),
    };
    let nptr = match parse_short_int(t.substring_char(4, 8)) {
        Some(v) => v,
        None => return Err(SignError::KeyMalformed),
    };
    let last = t.get_char(n - 1);
    if !('0' <= last && last <= '9') {
        return Err(SignError::KeyMalformed);
    }
    let shift = (last as u32 - '0' as u32) as u64;
    let diff: i64 = dest - nptr;
    let mut v: u64 = if diff < 0 {
        (-diff) as u64
    } else {
        diff as u64
    };
    let mut k: u64 = 0;
    while k < shift
        invariant
            k <= shift <= 9,
            v == abs(dest - nptr) * pow2(k as nat),
            abs(dest - nptr) <= 19998,
        decreases shift - k,
    {
        proof {
            reveal_with_fuel(pow2, 10);
            lemma_pow2_bound(k as nat);
            assert(abs(dest - nptr) * pow2(k as nat) <= 19998 * 256) by (nonlinear_arith)
                requires
                    abs(dest - nptr) <= 19998,
                    pow2(k as nat) <= 256,
            ;
        }
        v = v * 2;
        k = k + 1;
        proof {
            assert(abs(dest - nptr) * pow2(k as nat) == 2 * (abs(dest - nptr) * pow2((k - 1) as nat)))
                by (nonlinear_arith)
                requires
                    pow2(k as nat) == 2 * pow2((k - 1) as nat),
            ;
        }
    }
    let mut out = String::new();
    push_decimal(&mut out, v);
    out.append(DYNAMIC_FIXED);
    assert(t@.last() == last);
    Ok(out)
}

proof fn lemma_pow10_small(k: nat)
    requires
        k <= 4,
    ensures
        pow10(k) <= 10000,
{
    reveal_with_fuel(pow10, 5);
}

proof fn lemma_pow2_bound(k: nat)
    requires
        k <= 8,
    ensures
        pow2(k) <= 256,
    decreases k,
{
    reveal_with_fuel(pow2, 10);
}

/// The session key reads every character in its ranges: identifiers with the
/// same key agree at offsets `[3, 6)` and `[9, 12)` of `a1` and `[4, 7)` of
/// `a2`, so changing any one of those characters changes the key.
pub proof fn lemma_rn_key_sensitive(a1: Seq<char>, a2: Seq<char>, b1: Seq<char>, b2: Seq<char>)
    requires
        a1.len() >= 12,
        a2.len() >= 12,
        b1.len() >= 12,
        b2.len() >= 12,
        rn_key_text(a1, a2) == rn_key_text(b1, b2),
    ensures
        forall|i: int| 3 <= i < 6 ==> a1[i] == b1[i],
        forall|i: int| 9 <= i < 12 ==> a1[i] == b1[i],
        forall|i: int| 4 <= i < 7 ==> a2[i] == b2[i],
{
    let ka = rn_key_text(a1, a2);
    let kb = rn_key_text(b1, b2);
    assert forall|i: int| 3 <= i < 6 implies a1[i] == b1[i] by {
        assert(ka[i - 3] == a1[i]);
        assert(kb[i - 3] == b1[i]);
    }
    assert forall|i: int| 9 <= i < 12 implies a1[i] == b1[i] by {
        assert(ka[i - 3] == a1[i]);
        assert(kb[i - 3] == b1[i]);
    }
    assert forall|i: int| 4 <= i < 7 implies a2[i] == b2[i] by {
        assert(ka[i - 1] == a2[i]);
        assert(kb[i - 1] == b2[i]);
    }
}

} // verus!
