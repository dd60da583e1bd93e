//! Fixed-width ASCII-digit fields.
//!
//! A numeric field on the wire is a run of ASCII digit bytes of fixed
//! width.  Decoding is lenient by design: a field holding anything but
//! digits decodes to `0` instead of failing the whole record.

use vstd::prelude::*;

verus! {

/// The byte is an ASCII digit, `'0'` through `'9'`.
pub open spec fn is_digit(b: u8) -> bool {
    48 <= b <= 57
}

/// Every byte of the field is an ASCII digit.
pub open spec fn all_digits(s: Seq<u8>) -> bool {
    forall|i: int| 0 <= i < s.len() ==> is_digit(#[trigger] s[i])
}

/// Value of a digit string read as a base-10 number, most significant
/// digit first.  Meaningful only when `all_digits(s)` holds.
pub open spec fn digits_value(s: Seq<u8>) -> nat
    decreases s.len(),
{
    if s.len() == 0 {
        0
    } else {
        digits_value(s.drop_last()) * 10 + (if is_digit(s.last()) {
            (s.last() - 48) as nat
        } else {
            0
        })
    }
}

/// The lenient reading of a numeric field: its base-10 value when the
/// field is all digits, and `0` otherwise.
pub open spec fn lenient_value(s: Seq<u8>) -> nat {
    if all_digits(s) {
        digits_value(s)
    } else {
        0
    }
}

/// `10^n`, the number of distinct digit strings of width `n`.
pub open spec fn pow10(n: nat) -> nat
    decreases n,
{
    if n == 0 {
        1
    } else {
        10 * pow10((n - 1) as nat)
    }
}

/// A digit string of width `n` is worth less than `10^n`.
pub proof fn lemma_digits_value_bound(s: Seq<u8>)
    ensures
        digits_value(s) < pow10(s.len()),
    decreases s.len(),
{
    if s.len() > 0 {
        lemma_digits_value_bound(s.drop_last());
    }
}

/// `10^19` still fits in a `u64`.
proof fn lemma_pow10_19_fits()
    ensures
        pow10(19) == 10_000_000_000_000_000_000,
{
    reveal_with_fuel(pow10, 20);
}

/// `pow10` never shrinks as the width grows.
pub proof fn lemma_pow10_monotonic(a: nat, b: nat)
    requires
        a <= b,
    ensures
        pow10(a) <= pow10(b),
    decreases b,
{
    if a < b {
        lemma_pow10_monotonic(a, (b - 1) as nat);
    }
}

/// A field that is not all digits decodes to `0` rather than failing
/// the record it sits in.
pub proof fn lemma_malformed_field_is_zero(s: Seq<u8>)
    requires
        !all_digits(s),
    ensures
        lenient_value(s) == 0,
{
}

/// Decode a fixed-width numeric field.  Returns the base-10 value of
/// the digits, or `0` if any byte is not an ASCII digit.
pub fn parse_digits(s: &[u8]) -> (r: u64)
    requires
        s@.len() <= 19,
    ensures
        r == lenient_value(s@),
{
    let ghost gs = s@;
    let mut acc: u64 = 0;
    let mut i: usize = 0;
    while i < s.len()
        invariant
            0 <= i <= gs.len() <= 19,
            gs == s@,
            all_digits(gs.subrange(0, i as int)),
            acc == digits_value(gs.subrange(0, i as int)),
            acc < pow10(i as nat),
        decreases gs.len() - i,
    {
        let b = s[i];
        if b < 48 || b > 57 {
            assert(!is_digit(gs[i as int]));
            assert(!all_digits(gs));
            return 0;
        }
        proof {
            lemma_digits_value_bound(gs.subrange(0, i as int));
            lemma_pow10_monotonic((i + 1) as nat, 19);
            lemma_pow10_19_fits();
            assert(gs.subrange(0, i + 1).drop_last() =~= gs.subrange(0, i as int));
            assert(gs.subrange(0, i + 1).last() == gs[i as int]);
        }
        acc = acc * 10 + ((b - 48) as u64);
        i += 1;
    }
    proof {
        assert(gs.subrange(0, gs.len() as int) =~= gs);
    }
    acc
}

/// The digit string of width `width` whose value is `v`, most
/// significant digit first; `v` is reduced modulo `10^width`.
pub open spec fn spec_encode_digits(v: nat, width: nat) -> Seq<u8>
    decreases width,
{
    if width == 0 {
        Seq::empty()
    } else {
        spec_encode_digits(v / 10, (width - 1) as nat).push((48 + v % 10) as u8)
    }
}

/// The encoding of a value that fits the width is all digits and
/// decodes back to the same value: the round trip loses nothing.
pub proof fn lemma_digits_round_trip(v: nat, width: nat)
    requires
        v < pow10(width),
    ensures
        spec_encode_digits(v, width).len() == width,
        all_digits(spec_encode_digits(v, width)),
        lenient_value(spec_encode_digits(v, width)) == v,
    decreases width,
{
    let s = spec_encode_digits(v, width);
    if width == 0 {
        assert(s =~= Seq::<u8>::empty());
    } else {
        lemma_digits_round_trip(v / 10, (width - 1) as nat);
        let prefix = spec_encode_digits(v / 10, (width - 1) as nat);
        assert(s.drop_last() =~= prefix);
        assert forall|i: int| 0 <= i < s.len() implies is_digit(#[trigger] s[i]) by {
            if i < s.len() - 1 {
                assert(s[i] == prefix[i]);
            }
        }
        assert(digits_value(s) == digits_value(prefix) * 10 + v % 10);
        assert(v / 10 * 10 + v % 10 == v) by (nonlinear_arith);
    }
}

/// Encode a value as a fixed-width digit field, most significant digit
/// first.  The inverse of `parse_digits` for values that fit the width.
pub fn encode_digits(v: u64, width: usize) -> (r: Vec<u8>)
    requires
        v < pow10(width as nat),
    ensures
        r@ == spec_encode_digits(v as nat, width as nat),
        r@.len() == width,
    decreases width,
{
    if width == 0 {
        Vec::new()
    } else {
        proof {
            assert(pow10(width as nat) == 10 * pow10((width - 1) as nat));
            assert(v / 10 < pow10((width - 1) as nat)) by (nonlinear_arith)
                requires
                    v < 10 * pow10((width - 1) as nat),
            ;
        }
        let mut r = encode_digits(v / 10, width - 1);
        r.push(48 + (v % 10) as u8);
        r
    }
}

} // verus!
