//! Saturating signed arithmetic, stated over the mathematical integers.
use vstd::prelude::*;

verus! {

/// The value of type `i64` nearest to `x`.
pub open spec fn clamp_i64(x: int) -> int {
    if x > i64::MAX {
        i64::MAX as int
    } else if x < i64::MIN {
        i64::MIN as int
    } else {
        x
    }
}

/// Division that rounds towards zero, as machine division does.
pub open spec fn trunc_div(a: int, b: int) -> int
    recommends
        b > 0,
{
    if a >= 0 {
        a / b
    } else {
        -((-a) / b)
    }
}

fn narrow(wide: i128) -> (r: i64)
    ensures
        r == clamp_i64(wide as int),
{
    if wide > 0x7fff_ffff_ffff_ffff {
        0x7fff_ffff_ffff_ffff
    } else if wide < -0x8000_0000_0000_0000 {
        -0x8000_0000_0000_0000
    } else {
        wide as i64
    }
}

/// `a + b`, clamped to the range of `i64`.
pub fn saturating_add_i64(a: i64, b: i64) -> (r: i64)
    ensures
        r == clamp_i64(a + b),
{
    narrow(a as i128 + b as i128)
}

/// `a - b`, clamped to the range of `i64`.
pub fn saturating_sub_i64(a: i64, b: i64) -> (r: i64)
    ensures
        r == clamp_i64(a - b),
{
    narrow(a as i128 - b as i128)
}

pub proof fn lemma_i64_product_bounds(a: int, b: int)
    requires
        i64::MIN <= a <= i64::MAX,
        i64::MIN <= b <= i64::MAX,
    ensures
        -0x4000_0000_0000_0000_0000_0000_0000_0000 <= a * b
            <= 0x4000_0000_0000_0000_0000_0000_0000_0000,
{
    assert(-0x4000_0000_0000_0000_0000_0000_0000_0000 <= a * b
        <= 0x4000_0000_0000_0000_0000_0000_0000_0000) by (nonlinear_arith)
        requires
            -0x8000_0000_0000_0000 <= a <= 0x8000_0000_0000_0000,
            -0x8000_0000_0000_0000 <= b <= 0x8000_0000_0000_0000,
    ;
}

/// `a * b`, clamped to the range of `i64`.
pub fn saturating_mul_i64(a: i64, b: i64) -> (r: i64)
    ensures
        r == clamp_i64(a * b),
{
    proof {
        lemma_i64_product_bounds(a as int, b as int);
    }
    narrow(a as i128 * b as i128)
}

/// Sum of the numbers, clamped to the range of `i64` at every step.
pub open spec fn saturating_sum(values: Seq<int>) -> int
    decreases values.len(),
{
    if values.len() == 0 {
        0
    } else {
        clamp_i64(saturating_sum(values.drop_last()) + values.last())
    }
}

pub open spec fn plain_sum(values: Seq<int>) -> int
    decreases values.len(),
{
    if values.len() == 0 {
        0
    } else {
        plain_sum(values.drop_last()) + values.last()
    }
}

pub open spec fn sum_of_magnitudes(values: Seq<int>) -> int
    decreases values.len(),
{
    if values.len() == 0 {
        0
    } else {
        sum_of_magnitudes(values.drop_last()) + if values.last() < 0 {
            -values.last()
        } else {
            values.last()
        }
    }
}

/// As long as the magnitudes add up to no more than fits, the clamped sum is the
/// sum, and the order of the numbers does not matter.
pub proof fn saturating_sum_is_exact(values: Seq<int>)
    requires
        sum_of_magnitudes(values) <= i64::MAX,
    ensures
        saturating_sum(values) == plain_sum(values),
        -sum_of_magnitudes(values) <= plain_sum(values) <= sum_of_magnitudes(values),
    decreases values.len(),
{
    if values.len() > 0 {
        lemma_magnitudes_nonnegative(values.drop_last());
        saturating_sum_is_exact(values.drop_last());
    }
}

/// Every partial sum fits.
pub open spec fn sums_fit(values: Seq<int>) -> bool
    decreases values.len(),
{
    values.len() == 0 || (sums_fit(values.drop_last()) && i64::MIN <= plain_sum(values)
        <= i64::MAX)
}

/// As long as every partial sum fits, nothing is clamped.
pub proof fn fitting_sums_are_exact(values: Seq<int>)
    requires
        sums_fit(values),
    ensures
        saturating_sum(values) == plain_sum(values),
    decreases values.len(),
{
    if values.len() > 0 {
        fitting_sums_are_exact(values.drop_last());
    }
}

/// The sum of two lists in a row is the sum of their sums.
pub proof fn plain_sum_splits(a: Seq<int>, b: Seq<int>)
    ensures
        plain_sum(a + b) == plain_sum(a) + plain_sum(b),
    decreases b.len(),
{
    if b.len() == 0 {
        assert(a + b =~= a);
    } else {
        assert((a + b).drop_last() =~= a + b.drop_last());
        plain_sum_splits(a, b.drop_last());
    }
}

proof fn lemma_magnitudes_nonnegative(values: Seq<int>)
    ensures
        sum_of_magnitudes(values) >= 0,
    decreases values.len(),
{
    if values.len() > 0 {
        lemma_magnitudes_nonnegative(values.drop_last());
    }
}

/// The 64-bit signed reading of an unsigned number: its two's complement.
pub open spec fn signed_reading(x: int) -> int {
    if x <= i64::MAX {
        x
    } else {
        x - 0x1_0000_0000_0000_0000
    }
}

/// The 64-bit unsigned reading of a signed number: its two's complement.
pub open spec fn unsigned_reading(y: int) -> int {
    if y >= 0 {
        y
    } else {
        y + 0x1_0000_0000_0000_0000
    }
}

/// Stores an unsigned number in a signed column.
pub fn to_signed(x: u64) -> (r: i64)
    ensures
        r == signed_reading(x as int),
{
    let wide: i128 = x as i128;
    if wide <= 0x7fff_ffff_ffff_ffff {
        wide as i64
    } else {
        (wide - 0x1_0000_0000_0000_0000) as i64
    }
}

/// Reads an unsigned number out of a signed column.
pub fn to_unsigned(y: i64) -> (r: u64)
    ensures
        r == unsigned_reading(y as int),
{
    let wide: i128 = y as i128;
    if wide >= 0 {
        wide as u64
    } else {
        (wide + 0x1_0000_0000_0000_0000) as u64
    }
}

/// The low 32 bits of a signed number.
pub fn low_u32(y: i64) -> (r: u32)
    ensures
        r == (y as int) % 0x1_0000_0000,
{
    let u: u64 = to_unsigned(y);
    assert((y + 0x1_0000_0000_0000_0000) % 0x1_0000_0000 == (y as int) % 0x1_0000_0000) by {
        vstd::arithmetic::div_mod::lemma_mod_multiples_vanish(
            0x1_0000_0000,
            y as int,
            0x1_0000_0000,
        );
    }
    (u % 0x1_0000_0000) as u32
}

/// A number survives being stored in a signed column and read back.
pub proof fn signed_column_round_trip(x: u64)
    ensures
        i64::MIN <= signed_reading(x as int) <= i64::MAX,
        unsigned_reading(signed_reading(x as int)) == x,
{
}

/// Clamping gives the nearest number of type `i64`: it is one, and no other is
/// nearer.
pub proof fn clamping_gives_the_nearest(x: int, other: i64)
    ensures
        i64::MIN <= clamp_i64(x) <= i64::MAX,
        i64::MIN <= x <= i64::MAX ==> clamp_i64(x) == x,
        x >= clamp_i64(x) ==> x - clamp_i64(x) <= x - other || other > x,
        x <= clamp_i64(x) ==> clamp_i64(x) - x <= other - x || other < x,
        x > i64::MAX ==> clamp_i64(x) >= other,
        x < i64::MIN ==> clamp_i64(x) <= other,
{
}

/// Clamping keeps the order of numbers.
pub proof fn clamping_keeps_the_order(x: int, y: int)
    requires
        x <= y,
    ensures
        clamp_i64(x) <= clamp_i64(y),
{
}

/// Machine division rounds towards zero: the quotient has the sign of the dividend
/// and falls short of it by less than one divisor.
pub proof fn division_rounds_towards_zero(a: int, b: int)
    requires
        b > 0,
    ensures
        a >= 0 ==> 0 <= trunc_div(a, b) * b <= a && a - trunc_div(a, b) * b < b,
        a < 0 ==> a <= trunc_div(a, b) * b <= 0 && trunc_div(a, b) * b - a < b,
        trunc_div(-a, b) == -trunc_div(a, b),
{
    let q = if a >= 0 {
        a / b
    } else {
        (-a) / b
    };
    let m = if a >= 0 {
        a
    } else {
        -a
    };
    vstd::arithmetic::div_mod::lemma_fundamental_div_mod(m, b);
    vstd::arithmetic::div_mod::lemma_div_pos_is_pos(m, b);
    assert(b * q == q * b && -q * b == -(q * b)) by (nonlinear_arith);
    assert(q * b >= 0) by (nonlinear_arith)
        requires
            q >= 0,
            b > 0,
    ;
    assert(0int / b == 0) by (nonlinear_arith)
        requires
            b > 0,
    ;
}

/// The clamped sum takes the numbers in one after the other, each time staying in
/// the range of `i64`; the sum of nothing is zero.
pub proof fn clamped_sums_add_up(values: Seq<int>, next: int)
    ensures
        saturating_sum(Seq::<int>::empty()) == 0,
        i64::MIN <= saturating_sum(values) + next <= i64::MAX ==> saturating_sum(values.push(next))
            == saturating_sum(values) + next,
        saturating_sum(values) + next > i64::MAX ==> saturating_sum(values.push(next)) == i64::MAX,
        saturating_sum(values) + next < i64::MIN ==> saturating_sum(values.push(next)) == i64::MIN,
{
    assert(values.push(next).drop_last() =~= values);
}

/// The two readings of a 64-bit pattern differ by a multiple of two to the 64th,
/// and each lies in its own range.
pub proof fn readings_are_of_one_pattern(x: u64, y: i64)
    ensures
        i64::MIN <= signed_reading(x as int) <= i64::MAX,
        x <= i64::MAX ==> signed_reading(x as int) == x,
        x > i64::MAX ==> signed_reading(x as int) == x - 0x1_0000_0000_0000_0000,
        0 <= unsigned_reading(y as int) <= u64::MAX,
        y >= 0 ==> unsigned_reading(y as int) == y,
        y < 0 ==> unsigned_reading(y as int) == y + 0x1_0000_0000_0000_0000,
        signed_reading(unsigned_reading(y as int)) == y,
{
}

} // verus!
