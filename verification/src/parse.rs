//! Decimal parsing of the numeric fields that arrive as text: client ids in
//! request headers and the octets of a dotted-quad address.

use vstd::prelude::*;

verus! {

use vstd::string::StringSliceAdditionalSpecFns;

/// A decimal digit character.
pub open spec fn is_digit(c: char) -> bool {
    '0' <= c && c <= '9'
}

/// Numeric value of one digit character.
pub open spec fn digit_value(c: char) -> int {
    c as int - '0' as int
}

/// True when every character of `s` is a decimal digit.
pub open spec fn all_digits(s: Seq<char>) -> bool {
    forall|i: int| 0 <= i < s.len() ==> is_digit(#[trigger] s[i])
}

/// The number written in decimal by the digit sequence `s` (most significant
/// digit first); 0 for the empty sequence.
pub open spec fn dec_value(s: Seq<char>) -> int
    decreases s.len(),
{
    if s.len() == 0 {
        0
    } else {
        dec_value(s.drop_last()) * 10 + digit_value(s.last())
    }
}

/// A digit run never denotes a negative number.
pub proof fn lemma_dec_value_nonneg(s: Seq<char>)
    requires
        all_digits(s),
    ensures
        dec_value(s) >= 0,
    decreases s.len(),
{
    if s.len() > 0 {
        assert(forall|i: int|
            0 <= i < s.drop_last().len() ==> is_digit(#[trigger] s.drop_last()[i]));
        lemma_dec_value_nonneg(s.drop_last());
    }
}

/// Extending a digit run on the right never shrinks its value.
pub proof fn lemma_dec_value_prefix_le(s: Seq<char>, i: int, j: int)
    requires
        all_digits(s),
        0 <= i <= j <= s.len(),
    ensures
        dec_value(s.subrange(0, i)) <= dec_value(s.subrange(0, j)),
    decreases j - i,
{
    if i < j {
        let p = s.subrange(0, j);
        let q = s.subrange(0, j - 1);
        assert(p.drop_last() =~= q);
        assert(forall|m: int| 0 <= m < q.len() ==> is_digit(#[trigger] q[m]));
        lemma_dec_value_nonneg(q);
        assert(dec_value(p) == dec_value(q) * 10 + digit_value(s[j - 1]));
        lemma_dec_value_prefix_le(s, i, j - 1);
    }
}

/// Parse a string as an unsigned 32-bit decimal number.
///
/// Succeeds exactly on non-empty all-digit strings whose value fits in `u32`;
/// leading zeros are accepted, signs and whitespace are not.
pub fn parse_u32(s: &str) -> (r: Option<u32>)
    ensures
        r is Some <==> s@.len() > 0 && all_digits(s@) && dec_value(s@) <= u32::MAX,
        r matches Some(v) ==> v == dec_value(s@),
{
    if !s.is_ascii() {
        proof {
            if all_digits(s@) {
                assert(forall|i: int|
                    0 <= i < s@.len() ==> '\0' <= #[trigger] s@[i] <= '\u{7f}') by {
                    assert(forall|i: int| 0 <= i < s@.len() ==> is_digit(#[trigger] s@[i]));
                }
            }
        }
        return None;
    }
    proof {
        vstd::string::is_ascii_spec_bytes(s);
    }
    let bytes = s.as_bytes();
    let n = bytes.len();
    if n == 0 {
        return None;
    }
    let mut acc: u32 = 0;
    let mut i: usize = 0;
    while i < n
        invariant
            s.is_ascii(),
            bytes@ == s.spec_bytes(),
            n == s@.len(),
            forall|m: int| 0 <= m < n ==> #[trigger] bytes@[m] == s@[m] as u8,
            0 <= i <= n,
            forall|m: int| 0 <= m < i ==> is_digit(#[trigger] s@[m]),
            acc == dec_value(s@.subrange(0, i as int)),
        decreases n - i,
    {
        let b = bytes[i];
        assert(b == s@[i as int] as u8);
        if b < 48 || b > 57 {
            assert(!is_digit(s@[i as int]));
            return None;
        }
        let d: u32 = (b - 48) as u32;
        let wide: u64 = acc as u64 * 10 + d as u64;
        proof {
            let p = s@.subrange(0, i + 1);
            assert(p.drop_last() =~= s@.subrange(0, i as int));
            assert(is_digit(s@[i as int]));
            assert(d == digit_value(s@[i as int]));
            assert(dec_value(p) == acc * 10 + d);
        }
        if wide > 0xffff_ffff {
            proof {
                if all_digits(s@) {
                    lemma_dec_value_prefix_le(s@, i + 1, n as int);
                    assert(s@.subrange(0, n as int) =~= s@);
                }
            }
            return None;
        }
        acc = wide as u32;
        i = i + 1;
    }
    proof {
        assert(s@.subrange(0, n as int) =~= s@);
    }
    Some(acc)
}

} // verus!
