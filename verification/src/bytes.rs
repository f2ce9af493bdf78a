//! Small helpers on byte strings.
//!
//! The interpreter works on lines of bytes. Multi-byte UTF-8 sequences only
//! use bytes above 0x7f, so every byte the tokenizer treats specially
//! (whitespace, quotes, the escape character) is pure ASCII and byte-wise
//! processing never splits a character.

use vstd::prelude::*;
use vstd::string::StringSliceAdditionalSpecFns;

verus! {

/// Space and horizontal tab are the word separators of a prompt line.
pub open spec fn is_ws(b: u8) -> bool {
    b == 32 || b == 9
}

/// Executable mirror of [`is_ws`].
pub fn ws_byte(b: u8) -> (r: bool)
    ensures
        r == is_ws(b),
{
    b == 32 || b == 9
}

/// Byte-wise equality of two byte strings.
pub fn bytes_eq(a: &[u8], b: &[u8]) -> (r: bool)
    ensures
        r <==> a@ == b@,
{
    if a.len() != b.len() {
        assert(a@ != b@) by {
            assert(a@.len() != b@.len());
        }
        return false;
    }
    let mut i: usize = 0;
    while i < a.len()
        invariant
            0 <= i <= a@.len(),
            a@.len() == b@.len(),
            forall|j: int| 0 <= j < i ==> a@[j] == b@[j],
        decreases a@.len() - i,
    {
        if a[i] != b[i] {
            return false;
        }
        i += 1;
    }
    assert(a@ =~= b@);
    true
}

/// The decimal digits of `n`, most significant first.
pub open spec fn spec_decimal(n: nat) -> Seq<u8>
    decreases n,
{
    if n < 10 {
        seq![(48 + n) as u8]
    } else {
        spec_decimal(n / 10).push((48 + n % 10) as u8)
    }
}

/// Renders `n` in decimal ASCII.
pub fn decimal(n: usize) -> (r: Vec<u8>)
    ensures
        r@ == spec_decimal(n as nat),
{
    let mut digits: Vec<u8> = Vec::new();
    let mut m: usize = n;
    assert(spec_decimal(n as nat) =~= spec_decimal(m as nat) + digits@.reverse());
    // Collect digits least significant first, then reverse.
    loop
        invariant_except_break
            spec_decimal(n as nat) == spec_decimal(m as nat) + digits@.reverse(),
        ensures
            spec_decimal(n as nat) == digits@.reverse(),
        decreases m,
    {
        let ghost pre = digits@;
        let d: u8 = (m % 10) as u8;
        let next: usize = m / 10;
        digits.push(48 + d);
        assert(digits@.reverse() =~= seq![(48 + d) as u8] + pre.reverse());
        if next == 0 {
            assert(spec_decimal(m as nat) =~= seq![(48 + d) as u8]) by {
                assert(m < 10);
            }
            assert(spec_decimal(n as nat) =~= digits@.reverse());
            break;
        }
        assert(spec_decimal(m as nat) =~= spec_decimal(next as nat) + seq![(48 + d) as u8]) by {
            assert(m >= 10);
            assert(spec_decimal(m as nat) == spec_decimal((m / 10) as nat).push((48 + m % 10) as u8));
        }
        m = next;
        assert(spec_decimal(n as nat) =~= spec_decimal(m as nat) + digits@.reverse());
    }
    let mut r: Vec<u8> = Vec::new();
    let mut i: usize = digits.len();
    while i > 0
        invariant
            0 <= i <= digits@.len(),
            r@ == digits@.subrange(i as int, digits@.len() as int).reverse(),
        decreases i,
    {
        i -= 1;
        let ghost pre = r@;
        r.push(digits[i]);
        assert(r@ =~= digits@.subrange(i as int, digits@.len() as int).reverse());
    }
    assert(digits@.subrange(0, digits@.len() as int) =~= digits@);
    r
}

/// Renders `n` in decimal ASCII.
pub fn decimal_u64(n: u64) -> (r: Vec<u8>)
    ensures
        r@ == spec_decimal(n as nat),
{
    let mut digits: Vec<u8> = Vec::new();
    let mut m: u64 = n;
    assert(spec_decimal(n as nat) =~= spec_decimal(m as nat) + digits@.reverse());
    loop
        invariant_except_break
            spec_decimal(n as nat) == spec_decimal(m as nat) + digits@.reverse(),
        ensures
            spec_decimal(n as nat) == digits@.reverse(),
        decreases m,
    {
        let ghost pre = digits@;
        let d: u8 = (m % 10) as u8;
        let next: u64 = m / 10;
        digits.push(48 + d);
        assert(digits@.reverse() =~= seq![(48 + d) as u8] + pre.reverse());
        if next == 0 {
            assert(spec_decimal(m as nat) =~= seq![(48 + d) as u8]) by {
                assert(m < 10);
            }
            assert(spec_decimal(n as nat) =~= digits@.reverse());
            break;
        }
        assert(spec_decimal(m as nat) =~= spec_decimal(next as nat) + seq![(48 + d) as u8]) by {
            assert(m >= 10);
            assert(spec_decimal(m as nat) == spec_decimal((m / 10) as nat).push((48 + m % 10) as u8));
        }
        m = next;
        assert(spec_decimal(n as nat) =~= spec_decimal(m as nat) + digits@.reverse());
    }
    let mut r: Vec<u8> = Vec::new();
    let mut i: usize = digits.len();
    while i > 0
        invariant
            0 <= i <= digits@.len(),
            r@ == digits@.subrange(i as int, digits@.len() as int).reverse(),
        decreases i,
    {
        i -= 1;
        r.push(digits[i]);
        assert(r@ =~= digits@.subrange(i as int, digits@.len() as int).reverse());
    }
    assert(digits@.subrange(0, digits@.len() as int) =~= digits@);
    r
}

/// Appends `src` to `dst`.
pub fn extend(dst: &mut Vec<u8>, src: &[u8])
    ensures
        final(dst)@ == old(dst)@ + src@,
{
    let mut i: usize = 0;
    while i < src.len()
        invariant
            0 <= i <= src@.len(),
            dst@ == old(dst)@ + src@.subrange(0, i as int),
        decreases src@.len() - i,
    {
        let ghost pre = dst@;
        dst.push(src[i]);
        assert(dst@ =~= old(dst)@ + src@.subrange(0, i + 1 as int));
        i += 1;
    }
    assert(dst@ =~= old(dst)@ + src@);
}

/// Appends the bytes of an ASCII string literal to `dst`.
pub fn extend_str(dst: &mut Vec<u8>, src: &str)
    ensures
        final(dst)@ == old(dst)@ + src.spec_bytes(),
{
    let b: &[u8] = src.as_bytes();
    extend(dst, b)
}

/// Copies a slice into a fresh vector.
pub fn to_vec(src: &[u8]) -> (r: Vec<u8>)
    ensures
        r@ == src@,
{
    let mut r: Vec<u8> = Vec::new();
    extend(&mut r, src);
    assert(r@ =~= src@);
    r
}

/// Whether `n` is the decimal rendering of some integer, i.e. one or more
/// ASCII digits (with no sign and no other characters).
pub open spec fn all_digits(s: Seq<u8>) -> bool {
    s.len() > 0 && forall|i: int| 0 <= i < s.len() ==> 48 <= #[trigger] s[i] <= 57
}

/// Checks whether `s` consists only of ASCII digits and is non-empty.
pub fn is_all_digits(s: &[u8]) -> (r: bool)
    ensures
        r == all_digits(s@),
{
    if s.len() == 0 {
        return false;
    }
    let mut i: usize = 0;
    while i < s.len()
        invariant
            0 <= i <= s@.len(),
            forall|j: int| 0 <= j < i ==> 48 <= #[trigger] s@[j] <= 57,
        decreases s@.len() - i,
    {
        if s[i] < 48 || s[i] > 57 {
            return false;
        }
        i += 1;
    }
    true
}

/// ASCII lowercase of one byte.
pub open spec fn lower_byte(b: u8) -> u8 {
    if 65 <= b <= 90 {
        (b + 32) as u8
    } else {
        b
    }
}

/// ASCII lowercase of a byte string.
pub open spec fn spec_lower(s: Seq<u8>) -> Seq<u8> {
    s.map_values(|b: u8| lower_byte(b))
}

/// Lowercases the ASCII letters of `s`.
pub fn to_ascii_lower(s: &[u8]) -> (r: Vec<u8>)
    ensures
        r@ == spec_lower(s@),
{
    let mut r: Vec<u8> = Vec::new();
    let mut i: usize = 0;
    while i < s.len()
        invariant
            0 <= i <= s@.len(),
            r@.len() == i,
            forall|j: int| 0 <= j < i ==> r@[j] == lower_byte(s@[j]),
        decreases s@.len() - i,
    {
        let b: u8 = s[i];
        if 65 <= b && b <= 90 {
            r.push(b + 32);
        } else {
            r.push(b);
        }
        i += 1;
    }
    assert(r@ =~= spec_lower(s@));
    r
}

/// The integer denoted by a digit string, most significant digit first.
pub open spec fn spec_digits_value(s: Seq<u8>) -> nat
    decreases s.len(),
{
    if s.len() == 0 {
        0
    } else {
        spec_digits_value(s.drop_last()) * 10 + (s.last() - 48) as nat
    }
}

/// Parses a digit string as an unsigned integer, failing on overflow.
pub fn parse_usize(s: &[u8]) -> (r: Option<usize>)
    requires
        all_digits(s@),
    ensures
        r is Some ==> r.unwrap() as nat == spec_digits_value(s@),
        r is None ==> spec_digits_value(s@) > usize::MAX,
{
    let mut acc: usize = 0;
    let mut i: usize = 0;
    while i < s.len()
        invariant
            0 <= i <= s@.len(),
            all_digits(s@),
            acc as nat == spec_digits_value(s@.subrange(0, i as int)),
        decreases s@.len() - i,
    {
        let d: u8 = s[i];
        assert(48 <= d <= 57);
        if acc > usize::MAX / 10 {
            assert(acc * 10 > usize::MAX) by (nonlinear_arith)
                requires
                    acc > usize::MAX / 10,
                    usize::MAX >= 10,
            {}
            proof {
                lemma_digits_value_grows(s@, i as int);
                assert(spec_digits_value(s@.subrange(0, i + 1)) >= spec_digits_value(
                    s@.subrange(0, i as int),
                ) * 10);
                lemma_digits_value_mono(s@, i + 1);
            }
            return None;
        }
        let step: usize = acc * 10;
        if step > usize::MAX - (d - 48) as usize {
            proof {
                lemma_digits_value_grows(s@, i as int);
                lemma_digits_value_mono(s@, i + 1);
            }
            return None;
        }
        acc = step + (d - 48) as usize;
        assert(s@.subrange(0, i + 1).drop_last() =~= s@.subrange(0, i as int));
        assert(s@.subrange(0, i + 1).last() == d);
        i += 1;
    }
    assert(s@.subrange(0, s@.len() as int) =~= s@);
    Some(acc)
}

proof fn lemma_digits_value_grows(s: Seq<u8>, i: int)
    requires
        0 <= i < s.len(),
        all_digits(s),
    ensures
        spec_digits_value(s.subrange(0, i + 1)) >= spec_digits_value(s.subrange(0, i)) * 10,
{
    assert(s.subrange(0, i + 1).drop_last() =~= s.subrange(0, i));
    assert(s.subrange(0, i + 1).last() == s[i]);
}

/// A longer digit prefix never denotes a smaller number.
proof fn lemma_digits_value_mono(s: Seq<u8>, i: int)
    requires
        0 <= i <= s.len(),
        all_digits(s),
    ensures
        spec_digits_value(s) >= spec_digits_value(s.subrange(0, i)),
    decreases s.len() - i,
{
    if i < s.len() {
        lemma_digits_value_grows(s, i);
        lemma_digits_value_mono(s, i + 1);
        assert(spec_digits_value(s.subrange(0, i + 1)) >= spec_digits_value(s.subrange(0, i)) * 10);
        assert(spec_digits_value(s.subrange(0, i)) * 10 >= spec_digits_value(s.subrange(0, i)))
            by (nonlinear_arith);
    } else {
        assert(s.subrange(0, i) =~= s);
    }
}

/// The bytes of `s` from `strip` on.
pub fn tail_bytes(s: &[u8], strip: usize) -> (r: Vec<u8>)
    requires
        strip <= s@.len(),
    ensures
        r@ == s@.skip(strip as int),
{
    let mut r: Vec<u8> = Vec::new();
    let mut i: usize = strip;
    while i < s.len()
        invariant
            strip <= i <= s@.len(),
            r@ == s@.subrange(strip as int, i as int),
        decreases s@.len() - i,
    {
        r.push(s[i]);
        assert(r@ =~= s@.subrange(strip as int, i + 1));
        i += 1;
    }
    assert(s@.subrange(strip as int, s@.len() as int) =~= s@.skip(strip as int));
    r
}

/// Whether `p` is a prefix of `s`.
pub open spec fn spec_is_prefix(p: Seq<u8>, s: Seq<u8>) -> bool {
    p.len() <= s.len() && s.take(p.len() as int) == p
}

/// Checks whether `p` is a prefix of `s`.
pub fn is_prefix(p: &[u8], s: &[u8]) -> (r: bool)
    ensures
        r == spec_is_prefix(p@, s@),
{
    if p.len() > s.len() {
        return false;
    }
    let mut i: usize = 0;
    while i < p.len()
        invariant
            0 <= i <= p@.len(),
            p@.len() <= s@.len(),
            forall|j: int| 0 <= j < i ==> p@[j] == s@[j],
        decreases p@.len() - i,
    {
        if p[i] != s[i] {
            assert(s@.take(p@.len() as int)[i as int] != p@[i as int]);
            return false;
        }
        i += 1;
    }
    assert(s@.take(p@.len() as int) =~= p@);
    true
}

/// A signed decimal integer literal: digits, optionally preceded by one
/// minus sign.
pub open spec fn is_int_literal(s: Seq<u8>) -> bool {
    all_digits(s) || (s.len() >= 2 && s[0] == 45 && all_digits(s.skip(1)))
}

/// The integer a signed decimal literal denotes.
pub open spec fn spec_int_value(s: Seq<u8>) -> int {
    if s.len() >= 1 && s[0] == 45 {
        -(spec_digits_value(s.skip(1)) as int)
    } else {
        spec_digits_value(s) as int
    }
}

/// The magnitude of a signed decimal literal.
pub open spec fn spec_int_magnitude(s: Seq<u8>) -> int {
    if s.len() >= 1 && s[0] == 45 {
        spec_digits_value(s.skip(1)) as int
    } else {
        spec_digits_value(s) as int
    }
}

/// Parses a signed decimal integer, failing when the text is no integer
/// literal or its magnitude exceeds what an `i64` or the machine word can
/// hold.
pub fn parse_i64(s: &[u8]) -> (r: Option<i64>)
    ensures
        r matches Some(v) ==> is_int_literal(s@) && v as int == spec_int_value(s@)
            && spec_int_magnitude(s@) <= i64::MAX && spec_int_magnitude(s@) <= usize::MAX,
        r is None ==> !is_int_literal(s@) || spec_int_magnitude(s@) > i64::MAX
            || spec_int_magnitude(s@) > usize::MAX,
{
    if s.len() == 0 {
        return None;
    }
    let neg: bool = s[0] == 45;
    let digits: Vec<u8> = if neg {
        tail_bytes(s, 1)
    } else {
        to_vec(s)
    };
    if !is_all_digits(digits.as_slice()) {
        return None;
    }
    proof {
        if neg {
            assert(digits@ == s@.skip(1));
        } else {
            assert(digits@ == s@);
        }
    }
    match parse_usize(digits.as_slice()) {
        None => {
            assert(spec_digits_value(digits@) > usize::MAX);
            assert(spec_int_magnitude(s@) > usize::MAX);
            None
        },
        Some(m) => {
            if (m as u64) > i64::MAX as u64 {
                assert(spec_int_magnitude(s@) > i64::MAX);
                return None;
            }
            assert(spec_int_magnitude(s@) == m as int);
            if neg {
                Some(-(m as i64))
            } else {
                Some(m as i64)
            }
        },
    }
}

} // verus!
