//! The character report: what the status line shows about the character
//! under the cursor.
//!
//! The text layer hands over the grapheme's UTF-8 bytes and, per character,
//! the bytes of its encoded form in the document encoding; this module
//! derives everything shown: the printable form with control characters
//! escaped, the Unicode code points, the decimal value of a single
//! ASCII-compatible byte, and the hexadecimal dump of the encoded bytes.

use vstd::prelude::*;
use vstd::string::StringSliceAdditionalSpecFns;
use crate::bytes;
use crate::shellwords::word_views;

verus! {

/// The printable form of one byte: common control characters appear as
/// escape sequences, everything else stands for itself.
pub open spec fn printable_byte(b: u8) -> Seq<u8> {
    if b == 0 {
        "\\0".spec_bytes()
    } else if b == 9 {
        "\\t".spec_bytes()
    } else if b == 10 {
        "\\n".spec_bytes()
    } else if b == 13 {
        "\\r".spec_bytes()
    } else {
        seq![b]
    }
}

/// The printable form of a byte string.
pub open spec fn spec_printable(s: Seq<u8>) -> Seq<u8>
    decreases s.len(),
{
    if s.len() == 0 {
        Seq::empty()
    } else {
        printable_byte(s[0]) + spec_printable(s.drop_first())
    }
}

proof fn lemma_printable_snoc(s: Seq<u8>, b: u8)
    ensures
        spec_printable(s.push(b)) == spec_printable(s) + printable_byte(b),
    decreases s.len(),
{
    if s.len() == 0 {
        assert(s.push(b)[0] == b);
        assert(s.push(b).drop_first() =~= Seq::<u8>::empty());
        assert(spec_printable(s.push(b)) == printable_byte(b) + spec_printable(
            Seq::<u8>::empty(),
        ));
        assert(printable_byte(b) + Seq::<u8>::empty() =~= printable_byte(b));
        assert(spec_printable(s) + printable_byte(b) =~= printable_byte(b));
    } else {
        assert(s.push(b)[0] == s[0]);
        assert(s.push(b).drop_first() =~= s.drop_first().push(b));
        lemma_printable_snoc(s.drop_first(), b);
        assert(printable_byte(s[0]) + (spec_printable(s.drop_first()) + printable_byte(b))
            =~= (printable_byte(s[0]) + spec_printable(s.drop_first())) + printable_byte(b));
    }
}

/// Renders the printable form of a grapheme's bytes.
pub fn printable(s: &[u8]) -> (r: Vec<u8>)
    ensures
        r@ == spec_printable(s@),
{
    let mut r: Vec<u8> = Vec::new();
    let mut i: usize = 0;
    assert(s@.subrange(0, 0) =~= Seq::<u8>::empty());
    while i < s.len()
        invariant
            0 <= i <= s@.len(),
            r@ == spec_printable(s@.subrange(0, i as int)),
        decreases s@.len() - i,
    {
        let b: u8 = s[i];
        proof {
            assert(s@.subrange(0, i + 1) =~= s@.subrange(0, i as int).push(b));
            lemma_printable_snoc(s@.subrange(0, i as int), b);
        }
        if b == 0 {
            bytes::extend_str(&mut r, "\\0");
        } else if b == 9 {
            bytes::extend_str(&mut r, "\\t");
        } else if b == 10 {
            bytes::extend_str(&mut r, "\\n");
        } else if b == 13 {
            bytes::extend_str(&mut r, "\\r");
        } else {
            r.push(b);
        }
        assert(r@ =~= spec_printable(s@.subrange(0, i as int)) + printable_byte(b));
        i += 1;
    }
    assert(s@.subrange(0, s@.len() as int) =~= s@);
    r
}

/// One lowercase hexadecimal digit.
pub open spec fn hex_digit(n: nat) -> u8
    recommends
        n < 16,
{
    if n < 10 {
        (48 + n) as u8
    } else {
        (87 + n) as u8
    }
}

/// The lowercase hexadecimal digits of `n`, most significant first.
pub open spec fn spec_hex(n: nat) -> Seq<u8>
    decreases n,
{
    if n < 16 {
        seq![hex_digit(n)]
    } else {
        spec_hex(n / 16).push(hex_digit(n % 16))
    }
}

/// `n` zero bytes of padding.
pub open spec fn spec_zeros(n: int) -> Seq<u8>
    decreases n,
{
    if n <= 0 {
        Seq::empty()
    } else {
        spec_zeros(n - 1).push(48u8)
    }
}

/// `n` in lowercase hexadecimal, zero-padded to at least four digits, as
/// a Unicode code point is written.
pub open spec fn spec_hex_pad4(n: nat) -> Seq<u8> {
    let digits = spec_hex(n);
    if digits.len() >= 4 {
        digits
    } else {
        spec_zeros(4 - digits.len()) + digits
    }
}

/// Renders `n` in lowercase hexadecimal with at least four digits.
pub fn hex_pad4(n: u32) -> (r: Vec<u8>)
    ensures
        r@ == spec_hex_pad4(n as nat),
{
    let mut digits: Vec<u8> = Vec::new();
    let mut m: u32 = n;
    assert(spec_hex(n as nat) =~= spec_hex(m as nat) + digits@.reverse());
    loop
        invariant_except_break
            spec_hex(n as nat) == spec_hex(m as nat) + digits@.reverse(),
        ensures
            spec_hex(n as nat) == digits@.reverse(),
        decreases m,
    {
        let ghost pre = digits@;
        let d: u32 = m % 16;
        let next: u32 = m / 16;
        let digit: u8 = if d < 10 {
            (48 + d) as u8
        } else {
            (87 + d) as u8
        };
        assert(digit == hex_digit(d as nat));
        digits.push(digit);
        assert(digits@.reverse() =~= seq![hex_digit(d as nat)] + pre.reverse());
        if next == 0 {
            assert(spec_hex(m as nat) =~= seq![hex_digit(d as nat)]) by {
                assert(m < 16);
            }
            assert(spec_hex(n as nat) =~= digits@.reverse());
            break;
        }
        assert(spec_hex(m as nat) =~= spec_hex(next as nat) + seq![hex_digit(d as nat)]) by {
            assert(m >= 16);
            assert(spec_hex(m as nat) == spec_hex((m / 16) as nat).push(hex_digit((m % 16) as nat)));
        }
        m = next;
        assert(spec_hex(n as nat) =~= spec_hex(m as nat) + digits@.reverse());
    }
    let mut r: Vec<u8> = Vec::new();
    let mut pad: usize = if digits.len() >= 4 {
        0
    } else {
        4 - digits.len()
    };
    let ghost padding = pad as int;
    assert(r@ =~= spec_zeros(0));
    while pad > 0
        invariant
            0 <= pad <= padding,
            r@ == spec_zeros(padding - pad),
        decreases pad,
    {
        r.push(48);
        pad -= 1;
        assert(r@ =~= spec_zeros(padding - pad));
    }
    let mut i: usize = digits.len();
    let ghost pre_pad = r@;
    while i > 0
        invariant
            0 <= i <= digits@.len(),
            r@ == pre_pad + digits@.subrange(i as int, digits@.len() as int).reverse(),
        decreases i,
    {
        i -= 1;
        r.push(digits[i]);
        assert(r@ =~= pre_pad + digits@.subrange(i as int, digits@.len() as int).reverse());
    }
    assert(digits@.subrange(0, digits@.len() as int) =~= digits@);
    proof {
        if digits@.len() >= 4 {
            assert(pre_pad =~= Seq::<u8>::empty());
            assert(r@ =~= spec_hex_pad4(n as nat));
        } else {
            assert(pre_pad == spec_zeros(4 - digits@.len()));
            assert(r@ =~= spec_hex_pad4(n as nat));
        }
    }
    r
}

/// The code points of a grapheme's UTF-8 bytes: the byte length of each
/// character is read off its leading byte, the leading byte contributes
/// its payload bits and every following byte six more.
pub open spec fn spec_code_points(s: Seq<u8>) -> Seq<nat>
    decreases s.len(),
{
    if s.len() == 0 {
        Seq::empty()
    } else {
        let l = utf8_len(s[0]);
        let group = if s.len() < l {
            s
        } else {
            s.take(l)
        };
        seq![group_value(group)] + spec_code_points(s.skip(group.len() as int))
    }
}

/// The byte length of the character beginning with `b`.
pub open spec fn utf8_len(b: u8) -> int {
    if b < 0xc0 {
        1
    } else if b < 0xe0 {
        2
    } else if b < 0xf0 {
        3
    } else {
        4
    }
}

/// The payload of a leading byte.
pub open spec fn lead_value(b: u8) -> nat {
    if b < 0xc0 {
        b as nat
    } else if b < 0xe0 {
        (b - 0xc0) as nat
    } else if b < 0xf0 {
        (b - 0xe0) as nat
    } else {
        (b - 0xf0) as nat
    }
}

/// The payload of a continuation byte.
pub open spec fn cont_value(b: u8) -> nat {
    (b % 64) as nat
}

/// The code point of one character's byte group.
pub open spec fn group_value(g: Seq<u8>) -> nat
    decreases g.len(),
{
    if g.len() == 0 {
        0
    } else if g.len() == 1 {
        lead_value(g[0])
    } else {
        group_value(g.drop_last()) * 64 + cont_value(g.last())
    }
}

/// Decodes a grapheme's UTF-8 bytes into code points.
pub fn code_points(s: &[u8]) -> (r: Vec<u32>)
    ensures
        r@.map_values(|c: u32| c as nat) == spec_code_points(s@),
{
    let mut r: Vec<u32> = Vec::new();
    let mut i: usize = 0;
    proof {
        assert(s@.skip(0int) =~= s@);
        assert(r@.map_values(|c: u32| c as nat) =~= Seq::<nat>::empty());
        assert(Seq::<nat>::empty() + spec_code_points(s@) =~= spec_code_points(s@));
    }
    while i < s.len()
        invariant
            0 <= i <= s@.len(),
            spec_code_points(s@) == r@.map_values(|c: u32| c as nat) + spec_code_points(
                s@.skip(i as int),
            ),
        decreases s@.len() - i,
    {
        let ghost tail = s@.skip(i as int);
        let b: u8 = s[i];
        assert(tail[0] == b);
        let l: usize = if b < 0xc0 {
            1
        } else if b < 0xe0 {
            2
        } else if b < 0xf0 {
            3
        } else {
            4
        };
        let remaining: usize = s.len() - i;
        let take: usize = if remaining >= l {
            l
        } else {
            remaining
        };
        let ghost group = if tail.len() < l as int {
            tail
        } else {
            tail.take(l as int)
        };
        proof {
            assert(group =~= s@.subrange(i as int, i + take));
            assert(group.len() == take);
        }
        let mut value: u32 = if b < 0xc0 {
            b as u32
        } else if b < 0xe0 {
            (b - 0xc0) as u32
        } else if b < 0xf0 {
            (b - 0xe0) as u32
        } else {
            (b - 0xf0) as u32
        };
        assert(value as nat == lead_value(b));
        let mut j: usize = 1;
        proof {
            assert(group.take(1int) =~= seq![b]);
            assert(seq![b].drop_last() =~= Seq::<u8>::empty());
            assert(group_value(seq![b]) == lead_value(b));
        }
        while j < take
            invariant
                1 <= j <= take,
                take <= 4,
                i + take <= s@.len(),
                s@.len() <= usize::MAX,
                group == s@.subrange(i as int, i + take),
                group.len() == take,
                value as nat == group_value(group.take(j as int)),
            decreases take - j,
        {
            proof {
                assert(group.take(j + 1).drop_last() =~= group.take(j as int));
                assert(group.take(j + 1).last() == group[j as int]);
                assert(group[j as int] == s@[i + j]);
                lemma_group_value_bounds(group.take(j as int));
            }
            let c: u8 = s[i + j];
            let cv: u8 = c % 64;
            assert(cv as nat == cont_value(c));
            assert((value as nat) * 64 + cv < 0x4000000) by (nonlinear_arith)
                requires
                    value < 0x100000,
                    cv < 64,
            {}
            value = value * 64 + (cv as u32);
            j += 1;
            assert(value as nat == group_value(group.take(j as int)));
        }
        proof {
            assert(group.take(take as int) =~= group);
        }
        let ghost pre_points = r@.map_values(|c: u32| c as nat);
        r.push(value);
        proof {
            assert(r@.map_values(|c: u32| c as nat) =~= pre_points.push(group_value(group)));
            assert(spec_code_points(tail) == seq![group_value(group)] + spec_code_points(
                tail.skip(group.len() as int),
            ));
            assert(tail.skip(group.len() as int) =~= s@.skip(i + take));
            assert(pre_points.push(group_value(group)) + spec_code_points(s@.skip(i + take))
                =~= pre_points + (seq![group_value(group)] + spec_code_points(
                s@.skip(i + take),
            )));
        }
        i += take;
    }
    proof {
        assert(s@.skip(s@.len() as int) =~= Seq::<u8>::empty());
        assert(spec_code_points(Seq::<u8>::empty()) =~= Seq::<nat>::empty());
        assert(r@.map_values(|c: u32| c as nat) + Seq::<nat>::empty() =~= r@.map_values(
            |c: u32| c as nat,
        ));
    }
    r
}

/// The value of a byte group of length at most four fits well below what
/// a 32-bit word holds: one byte stays below 0x100, and every further
/// byte multiplies the bound by 64.
proof fn lemma_group_value_bounds(g: Seq<u8>)
    requires
        g.len() <= 4,
    ensures
        g.len() <= 1 ==> group_value(g) < 0x100,
        g.len() <= 2 ==> group_value(g) < 0x4000,
        g.len() <= 3 ==> group_value(g) < 0x100000,
        group_value(g) < 0x4000000,
    decreases g.len(),
{
    if g.len() > 1 {
        lemma_group_value_bounds(g.drop_last());
        assert(group_value(g) == group_value(g.drop_last()) * 64 + cont_value(g.last()));
        assert(cont_value(g.last()) < 64);
        if g.len() == 2 {
            assert(group_value(g.drop_last()) * 64 + cont_value(g.last()) < 0x4000)
                by (nonlinear_arith)
                requires
                    group_value(g.drop_last()) < 0x100,
                    cont_value(g.last()) < 64,
            {}
        } else if g.len() == 3 {
            assert(group_value(g.drop_last()) * 64 + cont_value(g.last()) < 0x100000)
                by (nonlinear_arith)
                requires
                    group_value(g.drop_last()) < 0x4000,
                    cont_value(g.last()) < 64,
            {}
        } else {
            assert(group_value(g.drop_last()) * 64 + cont_value(g.last()) < 0x4000000)
                by (nonlinear_arith)
                requires
                    group_value(g.drop_last()) < 0x100000,
                    cont_value(g.last()) < 64,
            {}
        }
    }
}

/// The code-point section of the report: each code point as `U+xxxx`,
/// space-separated, in parentheses.
pub open spec fn spec_unicode_section(points: Seq<nat>) -> Seq<u8>
    decreases points.len(),
{
    if points.len() == 0 {
        Seq::empty()
    } else if points.len() == 1 {
        "U+".spec_bytes() + spec_hex_pad4(points[0])
    } else {
        spec_unicode_section(points.drop_last()) + " U+".spec_bytes() + spec_hex_pad4(
            points.last(),
        )
    }
}

/// Renders the code points of a grapheme as `U+xxxx U+yyyy`.
pub fn unicode_section(grapheme: &[u8]) -> (r: Vec<u8>)
    ensures
        r@ == spec_unicode_section(spec_code_points(grapheme@)),
{
    let points = code_points(grapheme);
    let ghost pts = points@.map_values(|c: u32| c as nat);
    let mut r: Vec<u8> = Vec::new();
    let mut i: usize = 0;
    assert(pts.take(0int) =~= Seq::<nat>::empty());
    while i < points.len()
        invariant
            0 <= i <= points@.len(),
            pts == points@.map_values(|c: u32| c as nat),
            pts.len() == points@.len(),
            r@ == spec_unicode_section(pts.take(i as int)),
        decreases points@.len() - i,
    {
        proof {
            assert(pts.take(i + 1).drop_last() =~= pts.take(i as int));
            assert(pts.take(i + 1).last() == pts[i as int]);
            assert(pts[i as int] == points@[i as int] as nat);
        }
        if i > 0 {
            bytes::extend_str(&mut r, " U+");
        } else {
            bytes::extend_str(&mut r, "U+");
        }
        let h = hex_pad4(points[i]);
        bytes::extend(&mut r, h.as_slice());
        assert(r@ =~= spec_unicode_section(pts.take(i + 1)));
        i += 1;
    }
    assert(pts.take(points@.len() as int) =~= pts);
    r
}

/// The hexadecimal dump of the encoded characters: two lowercase digits
/// per byte, each byte preceded by a space, character groups joined by
/// ` +`.
pub open spec fn spec_hex_group(g: Seq<u8>) -> Seq<u8>
    decreases g.len(),
{
    if g.len() == 0 {
        Seq::empty()
    } else {
        spec_hex_group(g.drop_last()) + seq![32u8] + spec_hex_byte(g.last())
    }
}

/// Two lowercase hexadecimal digits of one byte.
pub open spec fn spec_hex_byte(b: u8) -> Seq<u8> {
    seq![hex_digit((b / 16) as nat), hex_digit((b % 16) as nat)]
}

pub open spec fn spec_hex_dump(groups: Seq<Seq<u8>>) -> Seq<u8>
    decreases groups.len(),
{
    if groups.len() == 0 {
        Seq::empty()
    } else if groups.len() == 1 {
        spec_hex_group(groups[0])
    } else {
        spec_hex_dump(groups.drop_last()) + " +".spec_bytes() + spec_hex_group(groups.last())
    }
}

/// Renders the encoded bytes of each character as a hex dump.
pub fn hex_dump(groups: &Vec<Vec<u8>>) -> (r: Vec<u8>)
    ensures
        r@ == spec_hex_dump(word_views(groups@)),
{
    let ghost gv = word_views(groups@);
    let mut r: Vec<u8> = Vec::new();
    let mut i: usize = 0;
    assert(gv.take(0int) =~= Seq::<Seq<u8>>::empty());
    while i < groups.len()
        invariant
            0 <= i <= groups@.len(),
            gv == word_views(groups@),
            gv.len() == groups@.len(),
            r@ == spec_hex_dump(gv.take(i as int)),
        decreases groups@.len() - i,
    {
        proof {
            assert(gv.take(i + 1).drop_last() =~= gv.take(i as int));
            assert(gv.take(i + 1).last() == gv[i as int]);
            assert(gv[i as int] == groups@[i as int]@);
        }
        if i > 0 {
            bytes::extend_str(&mut r, " +");
        }
        let g: &Vec<u8> = &groups[i];
        let mut j: usize = 0;
        let ghost pre = r@;
        assert(g@.take(0int) =~= Seq::<u8>::empty());
        while j < g.len()
            invariant
                0 <= j <= g@.len(),
                r@ == pre + spec_hex_group(g@.take(j as int)),
            decreases g@.len() - j,
        {
            proof {
                assert(g@.take(j + 1).drop_last() =~= g@.take(j as int));
                assert(g@.take(j + 1).last() == g@[j as int]);
            }
            let b: u8 = g[j];
            r.push(32);
            let hi: u8 = b / 16;
            let lo: u8 = b % 16;
            r.push(
                if hi < 10 {
                    48 + hi
                } else {
                    87 + hi
                },
            );
            r.push(
                if lo < 10 {
                    48 + lo
                } else {
                    87 + lo
                },
            );
            assert(r@ =~= pre + spec_hex_group(g@.take(j + 1)));
            j += 1;
        }
        assert(g@.take(g@.len() as int) =~= g@);
        assert(r@ =~= spec_hex_dump(gv.take(i + 1)));
        i += 1;
    }
    assert(gv.take(groups@.len() as int) =~= gv);
    r
}

/// The whole character report, as the status line shows it: the printable
/// grapheme in quotes; in a UTF-8 document its code points; for a single
/// byte in an ASCII-compatible encoding its decimal value; and the hex
/// dump of the encoded bytes.
pub fn character_report(
    grapheme: &[u8],
    encoded: &Vec<Vec<u8>>,
    utf8: bool,
    ascii_compatible: bool,
) -> (r: Vec<u8>)
    ensures
        r@ == "\"".spec_bytes() + spec_printable(grapheme@) + "\"".spec_bytes() + (if utf8 {
            " (".spec_bytes() + spec_unicode_section(spec_code_points(grapheme@))
                + ")".spec_bytes()
        } else {
            Seq::<u8>::empty()
        }) + (if ascii_compatible && grapheme@.len() == 1 {
            " Dec ".spec_bytes() + bytes::spec_decimal(grapheme@[0] as nat)
        } else {
            Seq::<u8>::empty()
        }) + " Hex".spec_bytes() + spec_hex_dump(word_views(encoded@)),
{
    let mut r: Vec<u8> = Vec::new();
    bytes::extend_str(&mut r, "\"");
    let p = printable(grapheme);
    bytes::extend(&mut r, p.as_slice());
    bytes::extend_str(&mut r, "\"");
    let ghost quoted = "\"".spec_bytes() + spec_printable(grapheme@) + "\"".spec_bytes();
    assert(r@ =~= quoted);
    if utf8 {
        bytes::extend_str(&mut r, " (");
        let u = unicode_section(grapheme);
        bytes::extend(&mut r, u.as_slice());
        bytes::extend_str(&mut r, ")");
    }
    let ghost with_unicode = quoted + (if utf8 {
        " (".spec_bytes() + spec_unicode_section(spec_code_points(grapheme@)) + ")".spec_bytes()
    } else {
        Seq::<u8>::empty()
    });
    assert(r@ =~= with_unicode);
    if ascii_compatible && grapheme.len() == 1 {
        bytes::extend_str(&mut r, " Dec ");
        let d = bytes::decimal_u64(grapheme[0] as u64);
        bytes::extend(&mut r, d.as_slice());
    }
    let ghost with_dec = with_unicode + (if ascii_compatible && grapheme@.len() == 1 {
        " Dec ".spec_bytes() + bytes::spec_decimal(grapheme@[0] as nat)
    } else {
        Seq::<u8>::empty()
    });
    assert(r@ =~= with_dec);
    bytes::extend_str(&mut r, " Hex");
    let h = hex_dump(encoded);
    bytes::extend(&mut r, h.as_slice());
    assert(r@ =~= with_dec + " Hex".spec_bytes() + spec_hex_dump(word_views(encoded@)));
    r
}

} // verus!
