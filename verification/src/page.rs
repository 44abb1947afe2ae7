//! Page arithmetic: rounding to multiples of a power-of-two page size.

use vstd::arithmetic::div_mod::{lemma_fundamental_div_mod, lemma_mod_breakdown, lemma_mod_multiples_vanish};
use vstd::arithmetic::power2::is_pow2;
use vstd::prelude::*;

verus! {

/// A range of addresses.
#[derive(Clone, Copy, Debug, PartialEq, Eq, Structural)]
pub struct AddressRange {
    /// The address of the first byte.
    pub address: usize,
    /// The number of bytes.
    pub length: usize,
}

/// The greatest multiple of `unit` that is not above `size`.
pub open spec fn round_down(size: int, unit: int) -> int {
    size - size % unit
}

/// The least multiple of `unit` that is not below `size`.
pub open spec fn round_up(size: int, unit: int) -> int {
    round_down(size + unit - 1, unit)
}

/// The number of pages in the page-aligned cover of the `length` bytes at
/// `offset`: the pages from the one that holds the first byte of the range
/// to the one that holds its last byte.
pub open spec fn cover_pages(page_size: int, offset: int, length: int) -> int {
    round_up(length + (offset - round_down(offset, page_size)), page_size) / page_size
}

/// Whether the page-aligned cover of the `length` bytes at `offset` of a
/// mapping at `base` lies in the address space, together with the address
/// behind it. Only the empty range lies in a mapping at 0, which stands for
/// no mapping.
pub open spec fn cover_fits(page_size: int, base: int, offset: int, length: int) -> bool {
    &&& is_pow2(page_size)
    &&& base % page_size == 0
    &&& base == 0 ==> offset + length == 0
    &&& base + round_up(offset + length, page_size) <= usize::MAX
}

/// Rounds `size` down to the nearest multiple of `power_of_two`.
pub fn round_down_to(size: usize, power_of_two: usize) -> (rounded: usize)
    requires
        is_pow2(power_of_two as int),
    ensures
        rounded == round_down(size as int, power_of_two as int),
        rounded % power_of_two == 0,
        rounded <= size < rounded + power_of_two,
{
    proof {
        reveal(is_pow2);
        lemma_mask_rounds_down(size, power_of_two);
        lemma_round_down(size as int, power_of_two as int);
    }
    size & !(power_of_two - 1)
}

/// Rounds `size` up to the nearest multiple of `power_of_two`, which the
/// caller knows to fit the address space.
pub fn round_up_to(size: usize, power_of_two: usize) -> (rounded: usize)
    requires
        is_pow2(power_of_two as int),
        size + power_of_two - 1 <= usize::MAX,
    ensures
        rounded == round_up(size as int, power_of_two as int),
        rounded % power_of_two == 0,
        size <= rounded < size + power_of_two,
{
    proof {
        reveal(is_pow2);
        lemma_mask_rounds_down((size + (power_of_two - 1)) as usize, power_of_two);
        lemma_round_up(size as int, power_of_two as int);
    }
    (size + (power_of_two - 1)) & !(power_of_two - 1)
}

/// Whether `value` can serve as a page size: a nonzero power of two.
pub fn is_page_size(value: usize) -> (valid: bool)
    ensures
        valid == is_pow2(value as int),
{
    proof {
        lemma_pow2_bit_test(value);
    }
    value != 0 && value & (value - 1) == 0
}

/// `round_down(size, unit)` is a multiple of `unit` and lies at most
/// `unit - 1` below `size`.
pub proof fn lemma_round_down(size: int, unit: int)
    requires
        unit > 0,
    ensures
        round_down(size, unit) % unit == 0,
        round_down(size, unit) == unit * (size / unit),
        round_down(size, unit) <= size < round_down(size, unit) + unit,
{
    lemma_fundamental_div_mod(size, unit);
    lemma_mod_multiples_vanish(size / unit, 0, unit);
}

/// Distinct multiples of `unit` lie at least `unit` apart.
proof fn lemma_multiples_apart(a: int, b: int, unit: int)
    requires
        unit > 0,
        a % unit == 0,
        b % unit == 0,
        a < b,
    ensures
        a + unit <= b,
{
    lemma_fundamental_div_mod(a, unit);
    lemma_fundamental_div_mod(b, unit);
    assert(unit * (b / unit) - unit * (a / unit) == unit * (b / unit - a / unit))
        by (nonlinear_arith);
    assert(b / unit - a / unit >= 1) by (nonlinear_arith)
        requires
            unit > 0,
            unit * (b / unit - a / unit) > 0,
    ;
    assert(unit * (b / unit - a / unit) >= unit) by (nonlinear_arith)
        requires
            unit > 0,
            b / unit - a / unit >= 1,
    ;
}

/// No multiple of `unit` lies above `round_down(size, unit)` and not above `size`.
pub proof fn lemma_round_down_is_greatest(size: int, unit: int, multiple: int)
    requires
        unit > 0,
        multiple % unit == 0,
        multiple <= size,
    ensures
        multiple <= round_down(size, unit),
{
    lemma_round_down(size, unit);
    if round_down(size, unit) < multiple {
        lemma_multiples_apart(round_down(size, unit), multiple, unit);
    }
}

/// `round_up(size, unit)` is a multiple of `unit` and lies at most `unit - 1`
/// above `size`.
pub proof fn lemma_round_up(size: int, unit: int)
    requires
        unit > 0,
    ensures
        round_up(size, unit) % unit == 0,
        size <= round_up(size, unit) < size + unit,
{
    lemma_round_down(size + unit - 1, unit);
}

/// No multiple of `unit` lies below `round_up(size, unit)` and not below `size`.
pub proof fn lemma_round_up_is_least(size: int, unit: int, multiple: int)
    requires
        unit > 0,
        multiple % unit == 0,
        multiple >= size,
    ensures
        multiple >= round_up(size, unit),
{
    lemma_round_up(size, unit);
    if multiple < round_up(size, unit) {
        lemma_multiples_apart(multiple, round_up(size, unit), unit);
    }
}

/// A value on a multiple of `unit` is left where it is by both roundings.
pub proof fn lemma_round_aligned(size: int, unit: int)
    requires
        unit > 0,
        size % unit == 0,
    ensures
        round_down(size, unit) == size,
        round_up(size, unit) == size,
{
    lemma_round_down(size, unit);
    lemma_round_up(size, unit);
    lemma_round_up_is_least(size, unit, size);
}

/// Rounding is monotonic in `size`.
pub proof fn lemma_round_monotonic(a: int, b: int, unit: int)
    requires
        unit > 0,
        a <= b,
    ensures
        round_down(a, unit) <= round_down(b, unit),
        round_up(a, unit) <= round_up(b, unit),
{
    lemma_round_down(a, unit);
    lemma_round_down_is_greatest(b, unit, round_down(a, unit));
    lemma_round_up(b, unit);
    lemma_round_up_is_least(a, unit, round_up(b, unit));
}

/// The page-aligned cover of a range starts at the offset rounded down, and
/// its length is the distance from there to the end of the range, rounded
/// up. Such a cover ends at the end of the range rounded up.
pub proof fn lemma_cover_end(offset: int, length: int, unit: int)
    requires
        unit > 0,
    ensures
        round_down(offset, unit) + round_up(length + (offset - round_down(offset, unit)), unit)
            == round_up(offset + length, unit),
{
    lemma_round_down(offset, unit);
    let span = length + (offset - round_down(offset, unit));
    lemma_mod_multiples_vanish(offset / unit, span + unit - 1, unit);
}

/// A nonzero value is a power of two exactly if it shares no bit with its
/// predecessor.
pub proof fn lemma_pow2_bit_test(p: usize)
    ensures
        is_pow2(p as int) <==> p != 0 && p & ((p - 1) as usize) == 0,
    decreases p,
{
    reveal(is_pow2);
    if p == 1 {
        assert(1usize & 0usize == 0) by (bit_vector);
    } else if p >= 2 {
        let q: usize = p / 2;
        assert(p & ((p - 1) as usize) == 0 <==> p % 2 == 0 && q & ((q - 1) as usize) == 0)
            by (bit_vector)
            requires
                p >= 2,
                q == p / 2,
        ;
        lemma_pow2_bit_test(q);
    }
}

/// Clearing the bits below a power of two `p` subtracts the remainder modulo `p`.
pub proof fn lemma_mask_rounds_down(x: usize, p: usize)
    requires
        is_pow2(p as int),
    ensures
        x & !((p - 1) as usize) == round_down(x as int, p as int),
    decreases p,
{
    reveal(is_pow2);
    if p == 1 {
        assert(x & !0usize == x) by (bit_vector);
    } else {
        let q: usize = p / 2;
        let h: usize = x / 2;
        assert(x & !((p - 1) as usize) == 2 * (h & !((q - 1) as usize))) by (bit_vector)
            requires
                p >= 2,
                p % 2 == 0,
                q == p / 2,
                h == x / 2,
        ;
        lemma_mask_rounds_down(h, q);
        lemma_mod_breakdown(x as int, 2, q as int);
        assert(2 * (q as int) == p);
    }
}

} // verus!
