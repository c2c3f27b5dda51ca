//! Decimal and hexadecimal rendering, and decimal parsing, of the
//! integers that appear on the wire: the handshake nonce, timestamps
//! and configuration values.

use vstd::prelude::*;

use crate::text::chars_to_string;

verus! {

/// The decimal digit character for `0 <= d <= 9`.
pub open spec fn dec_digit(d: int) -> char {
    ((48 + d) as u8) as char
}

/// The decimal rendering of a non-negative integer, most significant
/// digit first, without leading zeroes (`0` renders as `0`).
pub open spec fn spec_dec(n: int) -> Seq<char>
    decreases n,
{
    if n < 10 {
        seq![dec_digit(n)]
    } else {
        spec_dec(n / 10).push(dec_digit(n % 10))
    }
}

fn dec_digits(n: u64) -> (r: Vec<char>)
    ensures
        r@ == spec_dec(n as int),
    decreases n,
{
    if n < 10 {
        let mut v: Vec<char> = Vec::new();
        v.push(((48 + n as u8)) as char);
        proof {
            assert(v@ =~= seq![dec_digit(n as int)]);
        }
        v
    } else {
        let mut v = dec_digits(n / 10);
        v.push(((48 + (n % 10) as u8)) as char);
        v
    }
}

/// Renders `n` in decimal.
pub fn dec_u64(n: u64) -> (r: String)
    ensures
        r@ == spec_dec(n as int),
{
    let v = dec_digits(n);
    chars_to_string(&v)
}

/// The decimal rendering padded with `0` to at least two digits, as
/// calendar fields are written.
pub open spec fn spec_dec2(n: int) -> Seq<char> {
    if n < 10 {
        seq!['0'].push(dec_digit(n))
    } else {
        spec_dec(n)
    }
}

/// Renders `n` in decimal, zero-padded to at least two digits.
pub fn dec2_u64(n: u64) -> (r: String)
    ensures
        r@ == spec_dec2(n as int),
{
    if n < 10 {
        let mut v: Vec<char> = Vec::new();
        v.push('0');
        v.push(((48 + n as u8)) as char);
        proof {
            assert(v@ =~= seq!['0'].push(dec_digit(n as int)));
        }
        chars_to_string(&v)
    } else {
        dec_u64(n)
    }
}

/// The lowercase hexadecimal digit character for `0 <= d <= 15`.
pub open spec fn hex_digit(d: int) -> char {
    if d < 10 {
        ((48 + d) as u8) as char
    } else {
        ((87 + d) as u8) as char
    }
}

/// The sixteen-digit lowercase hexadecimal rendering of a 64-bit
/// value, most significant nibble first.
pub open spec fn spec_hex64(h: u64) -> Seq<char> {
    Seq::new(16, |i: int| hex_digit(((h >> ((15 - i) * 4) as u64) & 0xf) as int))
}

/// Renders `h` as sixteen lowercase hexadecimal digits.
pub fn hex_u64(h: u64) -> (r: String)
    ensures
        r@ == spec_hex64(h),
{
    let mut v: Vec<char> = Vec::new();
    let mut i: usize = 0;
    while i < 16
        invariant
            0 <= i <= 16,
            v@.len() == i,
            forall|k: int| 0 <= k < i ==> v@[k] == spec_hex64(h)[k],
        decreases 16 - i,
    {
        let shift: u64 = ((15 - i) * 4) as u64;
        let nib: u64 = (h >> shift) & 0xf;
        proof {
            assert(nib <= 0xf) by (bit_vector)
                requires
                    nib == (h >> shift) & 0xf,
            ;
        }
        let c: char = if nib < 10 {
            ((48 + nib as u8)) as char
        } else {
            ((87 + nib as u8)) as char
        };
        v.push(c);
        proof {
            assert(v@[i as int] == spec_hex64(h)[i as int]);
        }
        i = i + 1;
    }
    proof {
        assert(v@ =~= spec_hex64(h));
    }
    chars_to_string(&v)
}

/// The value of a sequence of decimal digits, or nothing if `s` is
/// empty or holds a non-digit.
pub open spec fn spec_parse_dec(s: Seq<char>) -> Option<int>
    decreases s.len(),
{
    if s.len() == 0 {
        None
    } else if !('0' <= s.last() && s.last() <= '9') {
        None
    } else if s.len() == 1 {
        Some(s.last() as int - 48)
    } else {
        match spec_parse_dec(s.drop_last()) {
            Some(h) => Some(h * 10 + (s.last() as int - 48)),
            None => None,
        }
    }
}

/// Parses an unsigned decimal number, refusing empty or non-digit
/// text and values that do not fit in a `u64`.
pub fn parse_u64(s: &str) -> (r: Option<u64>)
    ensures
        match r {
            Some(v) => spec_parse_dec(s@) == Some(v as int),
            None => spec_parse_dec(s@) is None || (spec_parse_dec(s@) matches Some(v) && v
                > u64::MAX),
        },
{
    let n: usize = s.unicode_len();
    if n == 0 {
        return None;
    }
    let mut acc: u64 = 0;
    let mut i: usize = 0;
    while i < n
        invariant
            0 < n == s@.len(),
            0 <= i <= n,
            i > 0 ==> spec_parse_dec(s@.subrange(0, i as int)) == Some(acc as int),
            i == 0 ==> acc == 0,
        decreases n - i,
    {
        let c = s.get_char(i);
        if !('0' <= c && c <= '9') {
            proof {
                lemma_parse_dec_bad(s@, i as int);
            }
            return None;
        }
        let d: u64 = (c as u8 - 48) as u64;
        if acc > 0xFFFF_FFFF_FFFF_FFFF / 10 || 10 * acc > u64::MAX - d {
            proof {
                lemma_parse_dec_grows(s@, i as int, acc as int, d as int);
            }
            return None;
        }
        let ghost prev = acc as int;
        acc = 10 * acc + d;
        proof {
            let t = s@.subrange(0, i as int + 1);
            assert(t.drop_last() =~= s@.subrange(0, i as int));
            assert(t.last() == s@[i as int]);
            if i == 0 {
                assert(t.len() == 1);
            }
        }
        i = i + 1;
    }
    proof {
        assert(s@.subrange(0, n as int) =~= s@);
    }
    Some(acc)
}

/// A non-digit at position `i` poisons the whole parse.
proof fn lemma_parse_dec_bad(s: Seq<char>, i: int)
    requires
        0 <= i < s.len(),
        !('0' <= s[i] && s[i] <= '9'),
    ensures
        spec_parse_dec(s) is None,
    decreases s.len(),
{
    if s.len() > 0 && i < s.len() - 1 {
        assert(s.drop_last()[i] == s[i]);
        lemma_parse_dec_bad(s.drop_last(), i);
    }
}

/// A parse whose prefix already exceeds `u64` range stays out of it.
proof fn lemma_parse_dec_grows(s: Seq<char>, i: int, acc: int, d: int)
    requires
        0 <= i < s.len(),
        i > 0 ==> spec_parse_dec(s.subrange(0, i)) == Some(acc),
        i == 0 ==> acc == 0,
        '0' <= s[i] && s[i] <= '9',
        d == s[i] as int - 48,
        acc * 10 + d > u64::MAX,
    ensures
        spec_parse_dec(s) is None || (spec_parse_dec(s) matches Some(v) && v > u64::MAX),
    decreases s.len() - i,
{
    let t = s.subrange(0, i + 1);
    assert(t.drop_last() =~= s.subrange(0, i));
    assert(t.last() == s[i]);
    if i == 0 {
        assert(t.len() == 1);
        assert(spec_parse_dec(t) == Some(d));
    } else {
        assert(spec_parse_dec(t) == Some(acc * 10 + d));
    }
    if i + 1 == s.len() {
        assert(t =~= s);
    } else {
        lemma_parse_dec_over(s, i + 1, acc * 10 + d);
    }
}

/// Once some prefix value exceeds `u64` range, every extension's value
/// does too (or fails).
proof fn lemma_parse_dec_over(s: Seq<char>, j: int, v: int)
    requires
        0 < j < s.len(),
        spec_parse_dec(s.subrange(0, j)) == Some(v),
        v > u64::MAX,
    ensures
        spec_parse_dec(s) is None || (spec_parse_dec(s) matches Some(w) && w > u64::MAX),
    decreases s.len() - j,
{
    let t = s.subrange(0, j + 1);
    assert(t.drop_last() =~= s.subrange(0, j));
    assert(t.last() == s[j]);
    if '0' <= s[j] && s[j] <= '9' {
        assert(spec_parse_dec(t) == Some(v * 10 + (s[j] as int - 48)));
        if j + 1 == s.len() {
            assert(t =~= s);
        } else {
            lemma_parse_dec_over(s, j + 1, v * 10 + (s[j] as int - 48));
        }
    } else {
        lemma_parse_dec_bad(s, j);
    }
}

/// Parses an unsigned decimal number that must fit in a `u16`, as the
/// port number does.
pub fn parse_u16(s: &str) -> (r: Option<u16>)
    ensures
        match r {
            Some(v) => spec_parse_dec(s@) == Some(v as int),
            None => spec_parse_dec(s@) is None || (spec_parse_dec(s@) matches Some(v) && v
                > u16::MAX),
        },
{
    match parse_u64(s) {
        Some(v) => {
            if v <= 0xFFFF {
                Some(v as u16)
            } else {
                None
            }
        },
        None => None,
    }
}

} // verus!
