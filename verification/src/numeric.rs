//! Decimal text for ports: formatting a port for publication in the lock
//! file, and parsing what a lock file or environment variable holds, with the
//! same acceptance rule as `str::parse::<u32>` (an optional leading `+`, then
//! at least one ASCII digit, nothing else, and no overflow).

use vstd::prelude::*;
use crate::strutil::push_char;

verus! {

/// The decimal digit character for one digit value.
pub open spec fn spec_digit_char(d: int) -> char {
    if d == 0 {
        '0'
    } else if d == 1 {
        '1'
    } else if d == 2 {
        '2'
    } else if d == 3 {
        '3'
    } else if d == 4 {
        '4'
    } else if d == 5 {
        '5'
    } else if d == 6 {
        '6'
    } else if d == 7 {
        '7'
    } else if d == 8 {
        '8'
    } else {
        '9'
    }
}

/// The decimal text of a number, most significant digit first, no sign and no
/// leading zeros (except for the number zero itself).
pub open spec fn spec_dec_chars(n: nat) -> Seq<char>
    decreases n,
{
    if n < 10 {
        seq![spec_digit_char(n as int)]
    } else {
        spec_dec_chars(n / 10).push(spec_digit_char((n % 10) as int))
    }
}

/// Runtime form of [`spec_digit_char`].
pub fn digit_char(d: u32) -> (r: char)
    requires
        d < 10,
    ensures
        r == spec_digit_char(d as int),
{
    if d == 0 {
        '0'
    } else if d == 1 {
        '1'
    } else if d == 2 {
        '2'
    } else if d == 3 {
        '3'
    } else if d == 4 {
        '4'
    } else if d == 5 {
        '5'
    } else if d == 6 {
        '6'
    } else if d == 7 {
        '7'
    } else if d == 8 {
        '8'
    } else {
        '9'
    }
}

/// The decimal text of a port, as published in the lock file.
pub fn u32_to_dec_string(n: u32) -> (r: String)
    ensures
        r@ == spec_dec_chars(n as nat),
    decreases n,
{
    if n < 10 {
        let mut out = String::new();
        push_char(&mut out, digit_char(n));
        proof {
            assert(out@ =~= spec_dec_chars(n as nat));
        }
        out
    } else {
        let mut out = u32_to_dec_string(n / 10);
        push_char(&mut out, digit_char(n % 10));
        out
    }
}

/// The decimal text of a number as ASCII bytes, most significant digit
/// first; what the lock file holds for a published port.
pub open spec fn spec_dec_bytes(n: nat) -> Seq<u8>
    decreases n,
{
    if n < 10 {
        seq![(48 + n) as u8]
    } else {
        spec_dec_bytes(n / 10).push((48 + n % 10) as u8)
    }
}

/// The decimal text of a port as bytes, as written to the lock file.
pub fn u32_to_dec_bytes(n: u32) -> (r: Vec<u8>)
    ensures
        r@ == spec_dec_bytes(n as nat),
    decreases n,
{
    if n < 10 {
        let mut out: Vec<u8> = Vec::new();
        out.push((48 + n) as u8);
        proof {
            assert(out@ =~= spec_dec_bytes(n as nat));
        }
        out
    } else {
        let mut out = u32_to_dec_bytes(n / 10);
        out.push((48 + n % 10) as u8);
        out
    }
}

/// Whether a byte is an ASCII decimal digit (`0x30` is `'0'`).
pub open spec fn is_digit_byte(b: u8) -> bool {
    48 <= b <= 57
}

pub open spec fn all_digit_bytes(s: Seq<u8>) -> bool {
    forall|i: int| 0 <= i < s.len() ==> is_digit_byte(#[trigger] s[i])
}

/// The value of a sequence of ASCII digit bytes, most significant first.
pub open spec fn spec_digits_value(s: Seq<u8>) -> int
    decreases s.len(),
{
    if s.len() == 0 {
        0
    } else {
        spec_digits_value(s.drop_last()) * 10 + (s.last() - 48)
    }
}

/// What `str::parse::<u32>` accepts of these bytes: an optional leading `+`
/// (`0x2b`), then one or more ASCII digits and nothing else, with a value
/// that fits in a `u32`.
pub open spec fn spec_parse_u32(s: Seq<u8>) -> Option<u32> {
    let digits = if s.len() >= 1 && s[0] == 43 {
        s.drop_first()
    } else {
        s
    };
    if digits.len() >= 1 && all_digit_bytes(digits) && spec_digits_value(digits) <= u32::MAX {
        Some(spec_digits_value(digits) as u32)
    } else {
        None
    }
}

/// Extending a digit string never shrinks its value.
proof fn lemma_digits_value_extend(s: Seq<u8>, i: int)
    requires
        0 <= i < s.len(),
    ensures
        spec_digits_value(s.subrange(0, i + 1)) == spec_digits_value(s.subrange(0, i)) * 10 + (
        s[i] - 48),
{
    let pre = s.subrange(0, i + 1);
    assert(pre.drop_last() =~= s.subrange(0, i));
    assert(pre.last() == s[i]);
}

/// Decimal text is well formed: never empty, nothing but digits, and its
/// value is the number it was made from.
pub proof fn lemma_dec_bytes_wellformed(n: nat)
    ensures
        spec_dec_bytes(n).len() >= 1,
        all_digit_bytes(spec_dec_bytes(n)),
        spec_digits_value(spec_dec_bytes(n)) == n,
    decreases n,
{
    if n < 10 {
        assert(spec_dec_bytes(n) =~= seq![(48 + n) as u8]);
        assert(spec_dec_bytes(n).drop_last() =~= Seq::<u8>::empty());
        assert(spec_digits_value(spec_dec_bytes(n).drop_last()) == 0);
        assert(spec_dec_bytes(n).last() == (48 + n) as u8);
    } else {
        lemma_dec_bytes_wellformed(n / 10);
        let whole = spec_dec_bytes(n);
        let prefix = spec_dec_bytes(n / 10);
        assert(whole.drop_last() =~= prefix);
        assert(whole.last() == (48 + n % 10) as u8);
        assert(spec_digits_value(whole) == spec_digits_value(prefix) * 10 + (n % 10));
        assert(spec_digits_value(prefix) * 10 + n % 10 == n) by (nonlinear_arith)
            requires
                spec_digits_value(prefix) == n / 10,
                n >= 10,
        {}
        assert forall|i: int| 0 <= i < whole.len() implies is_digit_byte(#[trigger] whole[i]) by {
            if i < whole.len() - 1 {
                assert(whole[i] == prefix[i]);
            }
        }
    }
}

/// Round trip: decimal text parses back to the number it was made from.
pub proof fn lemma_dec_parse_round_trip(n: u32)
    ensures
        spec_parse_u32(spec_dec_bytes(n as nat)) == Some(n),
{
    lemma_dec_bytes_wellformed(n as nat);
    let s = spec_dec_bytes(n as nat);
    assert(is_digit_byte(s[0]));
    assert(s[0] != 43);
}

/// Parses the decimal port text held by a lock file or an environment
/// variable, exactly as `str::parse::<u32>` would.
pub fn parse_u32_bytes(v: &Vec<u8>) -> (r: Option<u32>)
    ensures
        r == spec_parse_u32(v@),
{
    let n = v.len();
    let start: usize = if n >= 1 && v[0] == 43 {
        1
    } else {
        0
    };
    let ghost digits = if v@.len() >= 1 && v@[0] == 43 {
        v@.drop_first()
    } else {
        v@
    };
    proof {
        assert(digits =~= v@.subrange(start as int, n as int));
    }
    if n == start {
        return None;
    }
    let mut acc: u64 = 0;
    let mut too_big = false;
    let mut i: usize = start;
    while i < n
        invariant
            start <= i <= n,
            n == v@.len(),
            digits == (if v@.len() >= 1 && v@[0] == 43 {
                v@.drop_first()
            } else {
                v@
            }),
            digits =~= v@.subrange(start as int, n as int),
            all_digit_bytes(digits.subrange(0, i - start)),
            !too_big ==> acc == spec_digits_value(digits.subrange(0, i - start)) && acc
                <= u32::MAX,
            too_big ==> spec_digits_value(digits.subrange(0, i - start)) > u32::MAX,
        decreases n - i,
    {
        let b = v[i];
        if b < 48 || b > 57 {
            proof {
                let k = i - start;
                assert(digits == v@.subrange(start as int, n as int));
                assert(digits[k] == v@[i as int]);
                assert(!is_digit_byte(digits[k]));
                assert(!all_digit_bytes(digits));
            }
            return None;
        }
        let d: u64 = (b - 48) as u64;
        proof {
            let k = i - start;
            lemma_digits_value_extend(digits, k);
            assert(digits.subrange(0, k).push(digits[k]) =~= digits.subrange(0, k + 1));
            if too_big {
                assert(spec_digits_value(digits.subrange(0, k)) * 10 + (digits[k] - 48)
                    > u32::MAX) by (nonlinear_arith)
                    requires
                        spec_digits_value(digits.subrange(0, k)) > u32::MAX,
                        digits[k] >= 48,
                {}
            }
        }
        if !too_big {
            let next: u64 = acc * 10 + d;
            if next > 0xFFFF_FFFF {
                too_big = true;
            } else {
                acc = next;
            }
        }
        i = i + 1;
    }
    proof {
        assert(digits.subrange(0, n - start) =~= digits);
    }
    if too_big {
        None
    } else {
        Some(acc as u32)
    }
}

} // verus!
