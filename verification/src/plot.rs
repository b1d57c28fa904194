//! Geometry of the CO2 history plot: one bar per measurement, scaled to the
//! height of the plot, and tick marks at fixed concentrations.
//!
//! A reading comes as the bit pattern of a single-precision number. Such a
//! number is a ratio of two integers, so every height here is computed, and
//! stated, in exact integer arithmetic: no rounding happens but the one to
//! the nearest pixel.

use crate::history::History;
use crate::scd30::Measurement;
use vstd::arithmetic::div_mod::{lemma_basic_div, lemma_div_by_multiple, lemma_div_is_ordered, lemma_div_multiples_vanish_quotient};
use vstd::arithmetic::power2::{lemma_pow2_pos, lemma_pow2_strictly_increases, lemma2_to64, lemma2_to64_rest, pow2};
use vstd::bits::lemma_u64_shl_is_mul;
use vstd::prelude::*;

verus! {

/// Concentration at which a bar reaches the full height of the plot.
pub const MAX_CO2_PPM: u32 = 2500;

/// Distance between two tick marks along the concentration axis.
pub const TICK_STEP_PPM: u32 = 500;

/// The integer nearest to `num / den`, halves rounded up, for `num >= 0` and
/// `den > 0`.
pub open spec fn round_ratio(num: int, den: int) -> int {
    (2 * num + den) / (2 * den)
}

/// Exponent field of a single-precision bit pattern.
pub open spec fn exponent_field(bits: u32) -> int {
    (bits as int / 0x80_0000) % 0x100
}

/// Fraction field of a single-precision bit pattern.
pub open spec fn fraction_field(bits: u32) -> int {
    bits as int % 0x80_0000
}

/// The sign bit is set: the number is negative, or a negative zero.
pub open spec fn is_negative(bits: u32) -> bool {
    bits >= 0x8000_0000
}

/// The pattern encodes no number.
pub open spec fn is_nan(bits: u32) -> bool {
    exponent_field(bits) == 0xff && fraction_field(bits) != 0
}

/// The pattern encodes an infinity.
pub open spec fn is_infinite(bits: u32) -> bool {
    exponent_field(bits) == 0xff && fraction_field(bits) == 0
}

/// Numerator of the magnitude of a finite number, which is
/// `magnitude_numerator / magnitude_denominator` exactly.
pub open spec fn magnitude_numerator(bits: u32) -> int {
    let e = exponent_field(bits);
    let f = fraction_field(bits);
    if e == 0 {
        f
    } else if e < 150 {
        0x80_0000 + f
    } else {
        (0x80_0000 + f) * pow2((e - 150) as nat)
    }
}

/// Denominator of the magnitude of a finite number, a power of two.
pub open spec fn magnitude_denominator(bits: u32) -> int {
    let e = exponent_field(bits);
    if e == 0 {
        pow2(149) as int
    } else if e < 150 {
        pow2((150 - e) as nat) as int
    } else {
        1
    }
}

/// Height in pixels of the bar for a reading: `value * height / domain_max`
/// rounded to the nearest pixel and held between nothing and the full
/// height. A pattern that encodes no number gives an empty bar.
pub open spec fn spec_bar_height(bits: u32, height: u32, domain_max: u32) -> int {
    if is_nan(bits) || is_negative(bits) {
        0
    } else if is_infinite(bits) {
        height as int
    } else {
        let scaled = round_ratio(
            magnitude_numerator(bits) * height,
            magnitude_denominator(bits) * domain_max,
        );
        if scaled < height {
            scaled
        } else {
            height as int
        }
    }
}

/// A ratio of at least `bound` does not round to less.
proof fn lemma_round_ratio_lower(num: int, den: int, bound: int)
    requires
        den > 0,
        bound >= 0,
        num >= den * bound,
    ensures
        round_ratio(num, den) >= bound,
{
    assert(2 * num + den >= (2 * den) * bound) by (nonlinear_arith)
        requires
            den > 0,
            num >= den * bound,
    ;
    lemma_div_is_ordered((2 * den) * bound, 2 * num + den, 2 * den);
    lemma_div_by_multiple(bound, 2 * den);
}

/// A ratio below one half rounds to nothing.
proof fn lemma_round_ratio_zero(num: int, den: int)
    requires
        num >= 0,
        2 * num < den,
    ensures
        round_ratio(num, den) == 0,
{
    lemma_basic_div(2 * num + den, 2 * den);
}

/// Computes the height of the bar for one reading.
pub fn bar_height(bits: u32, height: u32, domain_max: u32) -> (pixels: u32)
    requires
        domain_max > 0,
    ensures
        pixels == spec_bar_height(bits, height, domain_max),
        pixels <= height,
{
    let exponent: u32 = (bits / 0x80_0000) % 0x100;
    let fraction: u32 = bits % 0x80_0000;
    if bits >= 0x8000_0000 || (exponent == 0xff && fraction != 0) {
        return 0;
    }
    if exponent == 0xff {
        return height;
    }
    let num: u128;
    let den: u128;
    if exponent >= 150 {
        let shift: u32 = exponent - 150;
        if shift >= 9 {
            // At least 2^32 ppm: more than any domain holds.
            proof {
                let m = 0x80_0000 + fraction as int;
                let p = pow2(shift as nat) as int;
                lemma2_to64();
                if shift > 9 {
                    lemma_pow2_strictly_increases(9, shift as nat);
                }
                assert(m * p >= domain_max as int) by (nonlinear_arith)
                    requires
                        m >= 0x80_0000,
                        p >= 512,
                        domain_max < 0x1_0000_0000,
                ;
                assert((m * p) * height >= (1 * domain_max) * height) by (nonlinear_arith)
                    requires
                        m * p >= domain_max,
                        height >= 0,
                ;
                lemma_round_ratio_lower((m * p) * height, 1 * domain_max, height as int);
            }
            return height;
        }
        let significand: u64 = 0x80_0000 + fraction as u64;
        proof {
            lemma2_to64();
            assert(pow2(shift as nat) <= 256) by {
                if shift < 8 {
                    lemma_pow2_strictly_increases(shift as nat, 8);
                }
            }
            assert(significand * pow2(shift as nat) < 0x1_0000_0000) by (nonlinear_arith)
                requires
                    significand < 0x100_0000,
                    pow2(shift as nat) <= 256,
            ;
            lemma_u64_shl_is_mul(significand, shift as u64);
        }
        num = (significand << (shift as u64)) as u128;
        den = 1;
    } else {
        let shift: u32 = if exponent == 0 {
            149
        } else {
            150 - exponent
        };
        let significand: u64 = if exponent == 0 {
            fraction as u64
        } else {
            0x80_0000 + fraction as u64
        };
        if shift >= 58 {
            // Less than half a pixel at any height and in any domain.
            proof {
                let p = pow2(shift as nat) as int;
                lemma2_to64_rest();
                if shift > 58 {
                    lemma_pow2_strictly_increases(58, shift as nat);
                }
                assert(2 * (significand * height) < p * domain_max) by (nonlinear_arith)
                    requires
                        0 <= significand < 0x100_0000,
                        0 <= height < 0x1_0000_0000,
                        p >= 0x400_0000_0000_0000,
                        domain_max >= 1,
                ;
                assert(significand * height >= 0) by (nonlinear_arith)
                    requires
                        significand >= 0,
                        height >= 0,
                ;
                lemma_round_ratio_zero(significand * height, p * domain_max);
            }
            return 0;
        }
        proof {
            lemma2_to64_rest();
            lemma2_to64();
            assert(pow2(shift as nat) <= 0x200_0000_0000_0000) by {
                if shift < 57 {
                    lemma_pow2_strictly_increases(shift as nat, 57);
                }
            }
            lemma_u64_shl_is_mul(1, shift as u64);
        }
        num = significand as u128;
        den = (1u64 << (shift as u64)) as u128;
    }
    assert(num == magnitude_numerator(bits));
    assert(den == magnitude_denominator(bits));
    assert(num < 0x1_0000_0000);
    assert(0 < den <= 0x200_0000_0000_0000) by {
        lemma_pow2_pos((150 - exponent) as nat);
        lemma_pow2_pos(149);
    }
    assert(num * height < 0x1_0000_0000 * 0x1_0000_0000) by (nonlinear_arith)
        requires
            0 <= num < 0x1_0000_0000,
            0 <= height < 0x1_0000_0000,
    ;
    assert(0 < den * domain_max < 0x200_0000_0000_0000 * 0x1_0000_0000) by (nonlinear_arith)
        requires
            0 < den <= 0x200_0000_0000_0000,
            0 < domain_max < 0x1_0000_0000,
    ;
    let scaled_num: u128 = num * (height as u128);
    let scaled_den: u128 = den * (domain_max as u128);
    let rounded: u128 = (2 * scaled_num + scaled_den) / (2 * scaled_den);
    if rounded < height as u128 {
        rounded as u32
    } else {
        height
    }
}

/// A reading that is finite and not negative.
pub open spec fn is_magnitude(bits: u32) -> bool {
    !is_negative(bits) && exponent_field(bits) != 0xff
}

/// A reading of at least `domain_max` fills the plot to its full height,
/// however large it is.
pub proof fn lemma_bar_saturates(bits: u32, height: u32, domain_max: u32)
    requires
        domain_max > 0,
        is_magnitude(bits),
        magnitude_numerator(bits) >= domain_max * magnitude_denominator(bits),
    ensures
        spec_bar_height(bits, height, domain_max) == height,
{
    let n = magnitude_numerator(bits);
    let d = magnitude_denominator(bits);
    lemma_pow2_pos(149);
    lemma_pow2_pos((150 - exponent_field(bits)) as nat);
    assert(n * height >= (d * domain_max) * height) by (nonlinear_arith)
        requires
            n >= domain_max * d,
            height >= 0,
    ;
    assert(d * domain_max > 0) by (nonlinear_arith)
        requires
            d > 0,
            domain_max > 0,
    ;
    lemma_round_ratio_lower(n * height, d * domain_max, height as int);
}

/// A reading of a whole number of ppm gives the bar that integer
/// arithmetic gives: `ppm * height / domain_max`, rounded, and no more than
/// the full height.
pub proof fn lemma_bar_of_whole_ppm(bits: u32, ppm: nat, height: u32, domain_max: u32)
    requires
        domain_max > 0,
        is_magnitude(bits),
        magnitude_numerator(bits) == ppm * magnitude_denominator(bits),
    ensures
        spec_bar_height(bits, height, domain_max) == if round_ratio(ppm * height, domain_max as int)
            < height {
            round_ratio(ppm * height, domain_max as int)
        } else {
            height as int
        },
{
    let d = magnitude_denominator(bits);
    lemma_pow2_pos(149);
    lemma_pow2_pos((150 - exponent_field(bits)) as nat);
    assert(2 * ((ppm * d) * height) + d * domain_max == d * (2 * (ppm * height) + domain_max))
        by (nonlinear_arith);
    assert(2 * (d * domain_max) == d * (2 * domain_max)) by (nonlinear_arith);
    lemma_div_multiples_vanish_quotient(d, 2 * (ppm * height) + domain_max, 2 * domain_max);
}

/// One bar of the plot, in pixels. A bar stands on the lower edge of the
/// plot.
#[derive(Debug, Copy, Clone, Eq, PartialEq)]
pub struct Bar {
    /// Distance of the bar's left edge from the left edge of the plot.
    pub offset: u32,
    /// Distance of the bar's upper edge from the upper edge of the plot.
    pub top: u32,
    /// Width of the bar.
    pub width: u32,
    /// Height of the bar.
    pub height: u32,
}

/// Width of every bar: the plot's width shared among as many bars as the
/// history can hold. What the division leaves over stays empty at the
/// right.
pub open spec fn spec_bar_width(plot_width: u32, capacity: nat) -> int {
    plot_width as int / capacity as int
}

/// The bar for the measurement at place `index` of a history.
pub open spec fn spec_bar(
    index: int,
    measurement: Measurement,
    capacity: nat,
    plot_width: u32,
    plot_height: u32,
    domain_max: u32,
) -> Bar {
    Bar {
        offset: (index * spec_bar_width(plot_width, capacity)) as u32,
        top: (plot_height - spec_bar_height(measurement.co2_ppm_bits, plot_height, domain_max)) as u32,
        width: spec_bar_width(plot_width, capacity) as u32,
        height: spec_bar_height(measurement.co2_ppm_bits, plot_height, domain_max) as u32,
    }
}

/// Computes the width of every bar.
pub fn bar_width(plot_width: u32, capacity: usize) -> (width: u32)
    requires
        capacity >= 1,
    ensures
        width == spec_bar_width(plot_width, capacity as nat),
{
    if capacity > plot_width as usize {
        proof {
            lemma_basic_div(plot_width as int, capacity as int);
        }
        0
    } else {
        plot_width / (capacity as u32)
    }
}

/// Computes the bars for the CO2 readings of a history, oldest first, in a
/// plot of the given size.
pub fn history_bars(history: &History, plot_width: u32, plot_height: u32, domain_max: u32) -> (bars: Vec<Bar>)
    requires
        domain_max > 0,
    ensures
        bars@.len() == history@.len(),
        forall|i: int|
            0 <= i < bars@.len() ==> #[trigger] bars@[i] == spec_bar(
                i,
                history@[i],
                history.spec_capacity(),
                plot_width,
                plot_height,
                domain_max,
            ),
        forall|i: int|
            0 <= i < bars@.len() ==> (#[trigger] bars@[i]).offset + bars@[i].width <= plot_width
                && bars@[i].top + bars@[i].height == plot_height,
{
    let items = history.iter();
    let capacity = history.capacity();
    let held = history.len();
    let width = bar_width(plot_width, capacity);
    let mut bars: Vec<Bar> = Vec::new();
    let mut index: usize = 0;
    let mut offset: u32 = 0;
    while index < held
        invariant
            domain_max > 0,
            items@ == history@,
            held == items@.len(),
            held <= capacity,
            capacity == history.spec_capacity(),
            capacity >= 1,
            width == spec_bar_width(plot_width, capacity as nat),
            index <= items@.len(),
            offset == index * width,
            bars@.len() == index,
            forall|i: int|
                0 <= i < index ==> #[trigger] bars@[i] == spec_bar(
                    i,
                    history@[i],
                    history.spec_capacity(),
                    plot_width,
                    plot_height,
                    domain_max,
                ),
            forall|i: int|
                0 <= i < index ==> (#[trigger] bars@[i]).offset + bars@[i].width <= plot_width
                    && bars@[i].top + bars@[i].height == plot_height,
        decreases held - index,
    {
        proof {
            lemma_bars_fit(index as int, capacity as int, plot_width as int);
        }
        let height = bar_height(items[index].co2_ppm_bits, plot_height, domain_max);
        bars.push(Bar { offset, top: plot_height - height, width, height });
        index = index + 1;
        offset = offset + width;
    }
    bars
}

/// As many bars as the history can hold fit side by side into the plot.
proof fn lemma_bars_fit(index: int, capacity: int, plot_width: int)
    requires
        0 <= index < capacity,
        plot_width >= 0,
    ensures
        index * (plot_width / capacity) + plot_width / capacity <= plot_width,
        (index + 1) * (plot_width / capacity) == index * (plot_width / capacity) + plot_width
            / capacity,
{
    let w = plot_width / capacity;
    vstd::arithmetic::div_mod::lemma_fundamental_div_mod(plot_width, capacity);
    vstd::arithmetic::div_mod::lemma_mod_bound(plot_width, capacity);
    vstd::arithmetic::div_mod::lemma_div_pos_is_pos(plot_width, capacity);
    assert((index + 1) * w <= capacity * w) by (nonlinear_arith)
        requires
            index + 1 <= capacity,
            w >= 0,
    ;
    assert((index + 1) * w == index * w + w) by (nonlinear_arith);
}

/// Height above the lower edge of the plot of the tick for a whole number
/// of ppm.
pub open spec fn spec_tick_height(ppm: int, plot_height: u32, domain_max: u32) -> int {
    round_ratio(ppm * plot_height, domain_max as int)
}

/// The tick for a concentration within the domain lies within the plot.
pub proof fn lemma_tick_within_plot(ppm: int, plot_height: u32, domain_max: u32)
    requires
        0 <= ppm <= domain_max,
        domain_max > 0,
    ensures
        0 <= spec_tick_height(ppm, plot_height, domain_max) <= plot_height,
{
    assert(0 <= ppm * plot_height <= domain_max * plot_height) by (nonlinear_arith)
        requires
            0 <= ppm <= domain_max,
            plot_height >= 0,
    ;
    assert(2 * (ppm * plot_height) + domain_max < (2 * domain_max) * (plot_height + 1))
        by (nonlinear_arith)
        requires
            ppm * plot_height <= domain_max * plot_height,
            domain_max > 0,
    ;
    vstd::arithmetic::div_mod::lemma_div_pos_is_pos(
        2 * (ppm * plot_height) + domain_max,
        2 * domain_max,
    );
    vstd::arithmetic::div_mod::lemma_multiply_divide_lt(
        2 * (ppm * plot_height) + domain_max,
        2 * domain_max,
        plot_height + 1,
    );
}

/// Computes where the tick marks go: one every `TICK_STEP_PPM` from zero
/// up to `domain_max`, each given as its distance in pixels from the upper
/// edge of the plot. The readings play no part in it.
pub fn tick_marks(plot_height: u32, domain_max: u32) -> (ticks: Vec<u32>)
    requires
        domain_max > 0,
    ensures
        ticks@.len() == domain_max / TICK_STEP_PPM + 1,
        forall|j: int|
            0 <= j < ticks@.len() ==> #[trigger] ticks@[j] == plot_height - spec_tick_height(
                j * TICK_STEP_PPM,
                plot_height,
                domain_max,
            ),
{
    let count: u32 = domain_max / TICK_STEP_PPM;
    let mut ticks: Vec<u32> = Vec::new();
    let mut step: u32 = 0;
    while step <= count
        invariant
            domain_max > 0,
            count == domain_max / TICK_STEP_PPM,
            step <= count + 1,
            ticks@.len() == step,
            forall|j: int|
                0 <= j < step ==> #[trigger] ticks@[j] == plot_height - spec_tick_height(
                    j * TICK_STEP_PPM,
                    plot_height,
                    domain_max,
                ),
        decreases count + 1 - step,
    {
        let ppm: u32 = step * TICK_STEP_PPM;
        proof {
            lemma_tick_within_plot(ppm as int, plot_height, domain_max);
        }
        assert(ppm * plot_height <= 0xffff_ffff * 0xffff_ffff) by (nonlinear_arith)
            requires
                ppm <= 0xffff_ffff,
                plot_height <= 0xffff_ffff,
        ;
        let scaled: u128 = (ppm as u128) * (plot_height as u128);
        let rise: u128 = (2 * scaled + domain_max as u128) / (2 * (domain_max as u128));
        ticks.push(plot_height - rise as u32);
        if step == count {
            return ticks;
        }
        step = step + 1;
    }
    ticks
}

} // verus!
