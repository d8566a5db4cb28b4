//! Subnet arithmetic: the dotted-quad notation, its syntax check, and the
//! subnet mask that belongs to a prefix length.

use crate::text::{
    chars_of, lemma_split_append, lemma_split_covers, lemma_split_without_separator, rows, split,
    split_fields,
};
use vstd::arithmetic::power2::{lemma2_to64, lemma_pow2_unfold, pow2};
use vstd::bits::{lemma_u32_pow2_no_overflow, lemma_u32_shl_is_mul, lemma_u32_shr_is_div};
use vstd::prelude::*;

verus! {

/// The largest prefix length of an IPv4 subnet.
pub const MAX_PREFIX_LENGTH: u8 = 32;

/// `c` lies between `lo` and `hi`, both included, by code point.
pub open spec fn char_between(c: char, lo: char, hi: char) -> bool {
    lo as u32 <= c as u32 <= hi as u32
}

/// One of the ten decimal digits.
pub open spec fn is_digit(c: char) -> bool {
    char_between(c, '0', '9')
}

/// The number that a decimal digit stands for.
pub open spec fn digit_value(c: char) -> nat {
    (c as u32 - 0x30) as nat
}

/// The digit that stands for `d`, for `d` below ten.
pub open spec fn digit_char(d: nat) -> char {
    ((0x30 + d) as u8) as char
}

/// The number that a text of decimal digits stands for.
pub open spec fn decimal_value(s: Seq<char>) -> nat
    decreases s.len(),
{
    if s.len() == 0 {
        0
    } else {
        decimal_value(s.drop_last()) * 10 + digit_value(s.last())
    }
}

/// Every character of `s` is a decimal digit.
pub open spec fn all_digits(s: Seq<char>) -> bool {
    forall|i: int| 0 <= i < s.len() ==> is_digit(#[trigger] s[i])
}

/// One group of a dotted quad, by the grammar
/// `25[0-5] | 2[0-4][0-9] | [01]?[0-9][0-9]?`.
pub open spec fn is_octet_text(s: Seq<char>) -> bool {
    ||| s.len() == 3 && s[0] == '2' && s[1] == '5' && char_between(s[2], '0', '5')
    ||| s.len() == 3 && s[0] == '2' && char_between(s[1], '0', '4') && is_digit(s[2])
    ||| s.len() == 3 && (s[0] == '0' || s[0] == '1') && is_digit(s[1]) && is_digit(s[2])
    ||| s.len() == 2 && is_digit(s[0]) && is_digit(s[1])
    ||| s.len() == 1 && is_digit(s[0])
}

/// Four groups, each an octet text, with a dot between neighbours.
pub open spec fn is_dotted_quad(s: Seq<char>) -> bool {
    let groups = split(s, '.');
    &&& groups.len() == 4
    &&& forall|i: int| 0 <= i < 4 ==> is_octet_text(#[trigger] groups[i])
}

/// What an address field may hold: nothing, which stands for "not set", or
/// a dotted quad.
pub open spec fn is_valid_ip_text(s: Seq<char>) -> bool {
    s.len() == 0 || is_dotted_quad(s)
}

/// The decimal notation of `v` without leading zeros, for `v` below 1000.
pub open spec fn octet_text(v: nat) -> Seq<char> {
    if v < 10 {
        seq![digit_char(v)]
    } else if v < 100 {
        seq![digit_char(v / 10), digit_char(v % 10)]
    } else {
        seq![digit_char(v / 100), digit_char((v / 10) % 10), digit_char(v % 10)]
    }
}

/// The dotted quad of four octets, the first being the most significant.
pub open spec fn dotted(a: nat, b: nat, c: nat, d: nat) -> Seq<char> {
    octet_text(a) + seq!['.'] + octet_text(b) + seq!['.'] + octet_text(c) + seq!['.'] + octet_text(
        d,
    )
}

/// The 32-bit number whose top `p` bits are set and whose other bits are
/// clear, for `p` up to 32.
pub open spec fn mask_bits(p: nat) -> nat {
    (pow2(32) - pow2((32 - p) as nat)) as nat
}

/// Octet `i` of the mask for prefix length `p`; octet 0 is the most
/// significant of the four.
pub open spec fn mask_octet(p: nat, i: nat) -> nat {
    (mask_bits(p) / pow2((8 * (3 - i)) as nat)) % 256
}

/// The subnet mask for prefix length `p` in dotted-quad notation.
pub open spec fn mask_text(p: nat) -> Seq<char> {
    dotted(mask_octet(p, 0), mask_octet(p, 1), mask_octet(p, 2), mask_octet(p, 3))
}

/// How many of the top `p` bits of a 32-bit word fall into octet `i`.
pub open spec fn octet_prefix(p: nat, i: nat) -> nat {
    if p <= 8 * i {
        0
    } else if p >= 8 * i + 8 {
        8
    } else {
        (p - 8 * i) as nat
    }
}

/// The octet whose top `k` bits are set and whose other bits are clear,
/// for `k` up to 8.
pub open spec fn top_bits(k: nat) -> nat {
    if k == 0 {
        0
    } else if k == 1 {
        128
    } else if k == 2 {
        192
    } else if k == 3 {
        224
    } else if k == 4 {
        240
    } else if k == 5 {
        248
    } else if k == 6 {
        252
    } else if k == 7 {
        254
    } else {
        255
    }
}

/// How many bits of `n` are set.
pub open spec fn count_ones(n: nat) -> nat
    decreases n,
{
    if n == 0 {
        0
    } else {
        n % 2 + count_ones(n / 2)
    }
}

/// Tells whether `c` lies between `lo` and `hi`, both included.
pub fn is_char_between(c: char, lo: char, hi: char) -> (r: bool)
    ensures
        r == char_between(c, lo, hi),
{
    lo as u32 <= c as u32 && c as u32 <= hi as u32
}

/// Tells whether `c` is a decimal digit.
pub fn is_digit_char(c: char) -> (r: bool)
    ensures
        r == is_digit(c),
{
    is_char_between(c, '0', '9')
}

/// Tells whether `s` is one group of a dotted quad.
pub fn is_octet(s: &Vec<char>) -> (r: bool)
    ensures
        r == is_octet_text(s@),
{
    let n: usize = s.len();
    if n == 1 {
        is_digit_char(s[0])
    } else if n == 2 {
        is_digit_char(s[0]) && is_digit_char(s[1])
    } else if n == 3 {
        if s[0] == '2' && s[1] == '5' {
            is_char_between(s[2], '0', '5')
        } else if s[0] == '2' {
            is_char_between(s[1], '0', '4') && is_digit_char(s[2])
        } else {
            (s[0] == '0' || s[0] == '1') && is_digit_char(s[1]) && is_digit_char(s[2])
        }
    } else {
        false
    }
}

/// Tells whether `ip` may stand in an address field: it is empty or a
/// dotted quad.
pub fn is_valid_ip(ip: &str) -> (r: bool)
    ensures
        r == is_valid_ip_text(ip@),
{
    let chars = chars_of(ip);
    if chars.len() == 0 {
        return true;
    }
    let groups = split_fields(&chars, '.');
    if groups.len() != 4 {
        return false;
    }
    let mut i: usize = 0;
    while i < 4
        invariant
            i <= 4,
            ip@.len() > 0,
            groups.len() == 4,
            rows(groups@) == split(ip@, '.'),
            forall|j: int| 0 <= j < i ==> is_octet_text(#[trigger] split(ip@, '.')[j]),
        decreases 4 - i,
    {
        assert(rows(groups@)[i as int] == groups@[i as int]@);
        if !is_octet(&groups[i]) {
            return false;
        }
        i += 1;
    }
    true
}

/// Appends the decimal notation of `v` to `s`.
pub fn push_octet(s: &mut String, v: u8)
    ensures
        final(s)@ == old(s)@ + octet_text(v as nat),
{
    if v >= 100 {
        s.push((0x30 + v / 100) as char);
    }
    if v >= 10 {
        s.push((0x30 + (v / 10) % 10) as char);
    }
    s.push((0x30 + v % 10) as char);
    assert(final(s)@ == old(s)@ + octet_text(v as nat));
}

/// The dotted quad of four octets.
pub fn dotted_quad(a: u8, b: u8, c: u8, d: u8) -> (s: String)
    ensures
        s@ == dotted(a as nat, b as nat, c as nat, d as nat),
{
    let mut s = String::new();
    push_octet(&mut s, a);
    s.push('.');
    push_octet(&mut s, b);
    s.push('.');
    push_octet(&mut s, c);
    s.push('.');
    push_octet(&mut s, d);
    assert(s@ == dotted(a as nat, b as nat, c as nat, d as nat));
    s
}

/// The subnet mask that belongs to a prefix length, in dotted-quad
/// notation: the top `prefix_length` bits of a 32-bit word are set, and the
/// word is written as four octets, the most significant first. There is no
/// mask for a prefix length above 32.
pub fn prefix_to_subnet_mask(prefix_length: u8) -> (r: Option<String>)
    ensures
        prefix_length > MAX_PREFIX_LENGTH ==> r is None,
        prefix_length <= MAX_PREFIX_LENGTH ==> r is Some && r->0@ == mask_text(
            prefix_length as nat,
        ),
{
    if prefix_length > MAX_PREFIX_LENGTH {
        return None;
    }
    let word: u32 = if prefix_length == 0 {
        0
    } else {
        !0u32 << (32 - prefix_length as u32)
    };
    proof {
        lemma_mask_word(prefix_length as u32);
        lemma_octet_of_word(word, 24);
        lemma_octet_of_word(word, 16);
        lemma_octet_of_word(word, 8);
        lemma_octet_of_word(word, 0);
        assert(word >> 0 == word) by (bit_vector);
    }
    let octet1: u8 = ((word >> 24) & 0xff) as u8;
    let octet2: u8 = ((word >> 16) & 0xff) as u8;
    let octet3: u8 = ((word >> 8) & 0xff) as u8;
    let octet4: u8 = (word & 0xff) as u8;
    Some(dotted_quad(octet1, octet2, octet3, octet4))
}

/// The word with the top `p` bits set, as the machine computes it.
spec fn mask_word(p: u32) -> u32 {
    if p == 0 {
        0u32
    } else {
        !0u32 << ((32 - p) as u32)
    }
}

/// Shifting the all-ones word left by `32 - p` leaves exactly the top `p`
/// bits set.
proof fn lemma_mask_word(p: u32)
    requires
        p <= 32,
    ensures
        mask_word(p) == mask_bits(p as nat),
{
    lemma2_to64();
    if p > 0 {
        let k: u32 = (32 - p) as u32;
        lemma_u32_pow2_no_overflow(k as nat);
        lemma_u32_shl_is_mul(1u32, k);
        let low: u32 = 1u32 << k;
        assert((!0u32 << k) == 0xffff_ffffu32 - (low - 1) as u32) by (bit_vector)
            requires
                k < 32,
                low == 1u32 << k,
        ;
    }
}

/// The octet of a 32-bit word that starts at bit `shift`, read by shifting
/// and masking, is a digit of the word in base 256.
proof fn lemma_octet_of_word(word: u32, shift: u32)
    requires
        shift < 32,
    ensures
        (word >> shift) & 0xff == (word as nat / pow2(shift as nat)) % 256,
{
    lemma_u32_shr_is_div(word, shift);
    let shifted: u32 = word >> shift;
    assert(shifted & 0xff == shifted % 256) by (bit_vector);
}

/// Each octet of a mask has its share of the prefix bits set, from the
/// top, and no other bit.
pub proof fn lemma_mask_octet_top_bits(p: nat, i: nat)
    requires
        p <= 32,
        i < 4,
    ensures
        mask_octet(p, i) == top_bits(octet_prefix(p, i)),
{
    let q: u32 = p as u32;
    let word: u32 = mask_word(q);
    let k: u32 = (32 - q) as u32;
    let first: u32 = (8 * i) as u32;
    let shift: u32 = (24 - first) as u32;
    let share: u32 = octet_prefix(p, i) as u32;
    lemma_mask_word(q);
    lemma_octet_of_word(word, shift);
    assert((word >> shift) & 0xff == (0xff00u32 >> share) & 0xff) by (bit_vector)
        requires
            q <= 32,
            k == 32 - q,
            word == (if q == 0 {
                0u32
            } else {
                !0u32 << k
            }),
            first == 0 || first == 8 || first == 16 || first == 24,
            shift == 24 - first,
            share == (if q <= first {
                0u32
            } else if q >= first + 8 {
                8u32
            } else {
                (q - first) as u32
            }),
    ;
    assert((0xff00u32 >> share) & 0xff == (if share == 0 {
        0u32
    } else if share == 1 {
        128u32
    } else if share == 2 {
        192u32
    } else if share == 3 {
        224u32
    } else if share == 4 {
        240u32
    } else if share == 5 {
        248u32
    } else if share == 6 {
        252u32
    } else if share == 7 {
        254u32
    } else {
        255u32
    })) by (bit_vector)
        requires
            share <= 8,
    ;
}

/// A bit above all bits of `m` adds one to the number of bits set.
proof fn lemma_count_ones_with_high_bit(m: nat, j: nat)
    requires
        m < pow2(j),
    ensures
        count_ones(pow2(j) + m) == 1 + count_ones(m),
    decreases j,
{
    if j == 0 {
        lemma2_to64();
        assert(count_ones(1) == 1 + count_ones(0));
    } else {
        lemma_pow2_unfold(j);
        let half = pow2((j - 1) as nat);
        assert((2 * half + m) / 2 == half + m / 2);
        assert((2 * half + m) % 2 == m % 2);
        lemma_count_ones_with_high_bit(m / 2, (j - 1) as nat);
    }
}

/// The octet with its top `k` bits set has `k` bits set: one bit more is
/// set by halving the octet and setting its top bit.
pub proof fn lemma_count_ones_of_top_bits(k: nat)
    requires
        k <= 8,
    ensures
        count_ones(top_bits(k)) == k,
    decreases k,
{
    if k > 0 {
        let before = top_bits((k - 1) as nat);
        lemma_count_ones_of_top_bits((k - 1) as nat);
        lemma2_to64();
        assert(top_bits(k) == pow2(7) + before / 2);
        assert(before % 2 == 0);
        assert(count_ones(before) == count_ones(before / 2));
        lemma_count_ones_with_high_bit(before / 2, 7);
    }
}

/// The decimal notation of an octet is one group of a dotted quad, holds
/// no dot, and stands for the octet.
pub proof fn lemma_octet_text(v: nat)
    requires
        v <= 255,
    ensures
        is_octet_text(octet_text(v)),
        decimal_value(octet_text(v)) == v,
        forall|i: int| 0 <= i < octet_text(v).len() ==> octet_text(v)[i] != '.',
{
    let t = octet_text(v);
    reveal_with_fuel(decimal_value, 4);
    if v < 10 {
        assert(t.drop_last() == Seq::<char>::empty());
    } else if v < 100 {
        assert(t.drop_last() == seq![digit_char(v / 10)]);
        assert(t.drop_last().drop_last() == Seq::<char>::empty());
    } else {
        assert(t.drop_last() == seq![digit_char(v / 100), digit_char((v / 10) % 10)]);
        assert(t.drop_last().drop_last() == seq![digit_char(v / 100)]);
        assert(t.drop_last().drop_last().drop_last() == Seq::<char>::empty());
    }
}

/// The groups of the dotted quad of four octets are the decimal notations
/// of the octets, and the text is a dotted quad.
pub proof fn lemma_dotted_groups(a: nat, b: nat, c: nat, d: nat)
    requires
        a <= 255,
        b <= 255,
        c <= 255,
        d <= 255,
    ensures
        split(dotted(a, b, c, d), '.') == seq![
            octet_text(a),
            octet_text(b),
            octet_text(c),
            octet_text(d),
        ],
        is_dotted_quad(dotted(a, b, c, d)),
{
    lemma_octet_text(a);
    lemma_octet_text(b);
    lemma_octet_text(c);
    lemma_octet_text(d);
    let ta = octet_text(a);
    let tb = octet_text(b);
    let tc = octet_text(c);
    let td = octet_text(d);
    lemma_split_without_separator(ta, '.');
    lemma_split_append(ta, tb, '.');
    lemma_split_append(ta + seq!['.'] + tb, tc, '.');
    lemma_split_append(ta + seq!['.'] + tb + seq!['.'] + tc, td, '.');
    let groups = split(dotted(a, b, c, d), '.');
    assert(groups == seq![ta, tb, tc, td]);
    assert forall|i: int| 0 <= i < 4 implies is_octet_text(#[trigger] groups[i]) by {}
}

/// For every prefix length up to 32 the mask is a dotted quad: it has
/// exactly four groups, and group `i` is the decimal notation of octet
/// `i`, which lies between 0 and 255.
pub proof fn lemma_mask_is_dotted_quad(p: nat)
    requires
        p <= 32,
    ensures
        is_dotted_quad(mask_text(p)),
        split(mask_text(p), '.').len() == 4,
        forall|i: nat|
            i < 4 ==> mask_octet(p, i) <= 255 && #[trigger] split(mask_text(p), '.')[i as int]
                == octet_text(mask_octet(p, i)) && decimal_value(split(mask_text(p), '.')[i as int])
                == mask_octet(p, i),
{
    lemma_dotted_groups(mask_octet(p, 0), mask_octet(p, 1), mask_octet(p, 2), mask_octet(p, 3));
    assert forall|i: nat| i < 4 implies mask_octet(p, i) <= 255 && #[trigger] split(
        mask_text(p),
        '.',
    )[i as int] == octet_text(mask_octet(p, i)) && decimal_value(split(mask_text(p), '.')[i as int])
        == mask_octet(p, i) by {
        lemma_octet_text(mask_octet(p, i));
    }
}

/// A shorter prefix never sets more bits in any octet: with `p <= q`,
/// octet `i` of the mask for `p` has at most as many bits set as octet `i`
/// of the mask for `q`, and is at most as large.
pub proof fn lemma_mask_octets_monotonic(p: nat, q: nat, i: nat)
    requires
        p <= q <= 32,
        i < 4,
    ensures
        count_ones(mask_octet(p, i)) <= count_ones(mask_octet(q, i)),
        mask_octet(p, i) <= mask_octet(q, i),
{
    lemma_mask_octet_top_bits(p, i);
    lemma_mask_octet_top_bits(q, i);
    lemma_count_ones_of_top_bits(octet_prefix(p, i));
    lemma_count_ones_of_top_bits(octet_prefix(q, i));
}

/// The four octets of a mask have as many bits set as the prefix is long,
/// and within a mask no octet has more bits set than the one before it.
pub proof fn lemma_mask_bit_count(p: nat)
    requires
        p <= 32,
    ensures
        count_ones(mask_octet(p, 0)) + count_ones(mask_octet(p, 1)) + count_ones(mask_octet(p, 2))
            + count_ones(mask_octet(p, 3)) == p,
        count_ones(mask_octet(p, 0)) >= count_ones(mask_octet(p, 1)) >= count_ones(
            mask_octet(p, 2),
        ) >= count_ones(mask_octet(p, 3)),
{
    lemma_mask_octet_top_bits(p, 0);
    lemma_mask_octet_top_bits(p, 1);
    lemma_mask_octet_top_bits(p, 2);
    lemma_mask_octet_top_bits(p, 3);
    lemma_count_ones_of_top_bits(octet_prefix(p, 0));
    lemma_count_ones_of_top_bits(octet_prefix(p, 1));
    lemma_count_ones_of_top_bits(octet_prefix(p, 2));
    lemma_count_ones_of_top_bits(octet_prefix(p, 3));
}

/// An octet text is a text of one to three decimal digits that stands for
/// a number up to 255.
pub proof fn lemma_octet_text_is_number(s: Seq<char>)
    ensures
        is_octet_text(s) <==> (1 <= s.len() <= 3 && all_digits(s) && decimal_value(s) <= 255),
{
    reveal_with_fuel(decimal_value, 4);
    if 1 <= s.len() <= 3 {
        if s.len() == 1 {
            assert(s.drop_last().len() == 0);
        } else if s.len() == 2 {
            assert(s.drop_last().last() == s[0]);
            assert(s.drop_last().drop_last().len() == 0);
        } else {
            assert(s.drop_last().last() == s[1]);
            assert(s.drop_last().drop_last().last() == s[0]);
            assert(s.drop_last().drop_last().drop_last().len() == 0);
        }
        if all_digits(s) {
            assert(is_digit(s[0]));
            assert(is_digit(s[s.len() - 1]));
            lemma_char_code(s[0]);
            if s.len() == 3 {
                assert(is_digit(s[1]));
                lemma_char_code(s[1]);
            }
        }
    }
}

/// A character is known by its code point.
proof fn lemma_char_code(c: char)
    ensures
        (c as u32) as char == c,
{
}

/// A dotted quad is made of decimal digits and dots only.
pub proof fn lemma_dotted_quad_characters(s: Seq<char>)
    requires
        is_dotted_quad(s),
    ensures
        forall|i: int| 0 <= i < s.len() ==> #[trigger] s[i] == '.' || is_digit(s[i]),
{
    let groups = split(s, '.');
    assert forall|k: int, j: int|
        0 <= k < groups.len() && 0 <= j < groups[k].len() implies is_digit(
        #[trigger] groups[k][j],
    ) by {
        assert(is_octet_text(groups[k]));
    }
    lemma_split_covers(s, '.', |c: char| is_digit(c));
}

} // verus!
