//! Rescaling raw hit counts to 8-bit intensities.
//!
//! The scale is linear: the largest counter of a histogram becomes 255 and
//! every other counter the nearest integer to its share of that, halves
//! rounded up. A histogram without a single hit becomes all zeros.

use vstd::prelude::*;
use crate::grid::{Grid, Pixel};
use crate::histogram::{peak_of, Histogram};

verus! {

/// The intensity of a counter at `count` in a histogram whose largest counter
/// is `peak`: `255 * count / peak` rounded to the nearest integer, halves up,
/// and never more than 255. With `peak` zero every intensity is zero.
pub open spec fn level(count: nat, peak: nat) -> nat {
    if peak == 0 {
        0
    } else {
        let rounded = (510 * count + peak) / (2 * peak);
        if rounded > 255 {
            255
        } else {
            rounded
        }
    }
}

/// The intensities of a whole table of counters, each scaled by the table's
/// own peak.
pub open spec fn levels_of(counts: Seq<u64>) -> Seq<u8> {
    Seq::new(counts.len(), |i: int| level(counts[i] as nat, peak_of(counts) as nat) as u8)
}

/// An intensity is the nearest integer to `255 * count / peak`: twice its
/// distance from that quotient, taken times `peak`, is at most `peak`, and a
/// quotient that lies exactly between two integers goes to the upper one.
pub proof fn level_is_nearest(count: nat, peak: nat)
    requires
        0 < peak,
        count <= peak,
    ensures
        level(count, peak) <= 255,
        2 * peak * level(count, peak) <= 510 * count + peak,
        510 * count + peak < 2 * peak * (level(count, peak) + 1),
{
    let rounded = (510 * count + peak) / (2 * peak);
    let numerator = (510 * count + peak) as int;
    let denominator = (2 * peak) as int;
    vstd::arithmetic::div_mod::lemma_fundamental_div_mod(numerator, denominator);
    vstd::arithmetic::div_mod::lemma_mod_bound(numerator, denominator);
    assert(rounded <= 255) by (nonlinear_arith)
        requires
            0 < peak,
            count <= peak,
            (2 * peak) * rounded <= 510 * count + peak,
    ;
    assert(2 * peak * rounded == (2 * peak) * rounded) by (nonlinear_arith);
    assert(2 * peak * (rounded + 1) == (2 * peak) * rounded + 2 * peak) by (nonlinear_arith);
}

/// The pixel with the most hits gets the full intensity.
pub proof fn level_of_peak_is_full(peak: nat)
    requires
        0 < peak,
    ensures
        level(peak, peak) == 255,
{
    level_is_nearest(peak, peak);
    let l = level(peak, peak);
    assert(l >= 255) by (nonlinear_arith)
        requires
            0 < peak,
            511 * peak < 2 * peak * (l + 1),
    ;
}

/// A pixel without hits stays black, and so does every pixel of a histogram
/// whose peak is zero.
pub proof fn level_of_nothing_is_zero(count: nat, peak: nat)
    ensures
        level(0, peak) == 0,
        level(count, 0) == 0,
{
    if peak > 0 {
        level_is_nearest(0, peak);
        let l = level(0, peak);
        assert(l == 0) by (nonlinear_arith)
            requires
                0 < peak,
                2 * peak * l <= peak,
        ;
    }
}

/// More hits never give a darker pixel.
pub proof fn level_is_monotone(fewer: nat, more: nat, peak: nat)
    requires
        fewer <= more,
    ensures
        level(fewer, peak) <= level(more, peak),
{
    if peak > 0 {
        vstd::arithmetic::div_mod::lemma_div_is_ordered(
            (510 * fewer + peak) as int,
            (510 * more + peak) as int,
            (2 * peak) as int,
        );
    }
}

/// In the intensities of a table with at least one hit, a pixel that holds the
/// table's largest count is at 255.
pub proof fn brightest_pixel_is_full(counts: Seq<u64>, i: int)
    requires
        0 <= i < counts.len(),
        counts[i] == peak_of(counts),
        peak_of(counts) > 0,
    ensures
        levels_of(counts)[i] == 255,
{
    level_of_peak_is_full(counts[i] as nat);
}

/// The intensities of a table without a single hit are all zero.
pub proof fn empty_table_is_black(counts: Seq<u64>)
    requires
        forall|i: int| 0 <= i < counts.len() ==> counts[i] == 0,
    ensures
        levels_of(counts).len() == counts.len(),
        forall|i: int| 0 <= i < counts.len() ==> levels_of(counts)[i] == 0,
{
    assert forall|i: int| 0 <= i < counts.len() implies levels_of(counts)[i] == 0 by {
        level_of_nothing_is_zero(0, peak_of(counts) as nat);
    }
}

/// Every intensity of a table is the nearest integer to the counter's share
/// of 255, measured against the table's peak.
pub proof fn levels_are_nearest(counts: Seq<u64>, i: int)
    requires
        0 <= i < counts.len(),
    ensures
        levels_of(counts)[i] == level(counts[i] as nat, peak_of(counts) as nat),
        counts[i] <= peak_of(counts),
        levels_of(counts)[i] <= 255,
{
    crate::histogram::peak_bounds_every_count(counts, i);
    if peak_of(counts) > 0 {
        level_is_nearest(counts[i] as nat, peak_of(counts) as nat);
    }
}

/// The intensity of one counter, as `level` defines it.
pub fn rescale(count: u64, peak: u64) -> (intensity: u8)
    ensures
        intensity == level(count as nat, peak as nat),
{
    if peak == 0 {
        return 0;
    }
    let numerator: u128 = 510u128 * (count as u128) + (peak as u128);
    let denominator: u128 = 2u128 * (peak as u128);
    let rounded: u128 = numerator / denominator;
    if rounded > 255 {
        255
    } else {
        rounded as u8
    }
}

/// A grid of 8-bit intensities, one per pixel, laid out in row-major order.
pub struct Intensity {
    grid: Grid,
    levels: Vec<u8>,
}

impl View for Intensity {
    type V = Seq<u8>;

    /// The intensities in row-major order.
    closed spec fn view(&self) -> Seq<u8> {
        self.levels@
    }
}

impl Intensity {
    /// The grid that the intensities cover.
    pub closed spec fn spec_grid(&self) -> Grid {
        self.grid
    }

    #[verifier::type_invariant]
    pub open spec fn well_formed(self) -> bool {
        &&& self.spec_grid().well_formed()
        &&& self@.len() == self.spec_grid().cells()
    }

    /// Whether these are the intensities of `histogram`: over the same grid,
    /// every counter scaled by the histogram's largest.
    pub open spec fn is_scaled_from(&self, histogram: &Histogram) -> bool {
        &&& self.spec_grid() == histogram.spec_grid()
        &&& self@ == levels_of(histogram@)
    }

    /// The intensities of `histogram`, each counter scaled by the histogram's
    /// largest. The histogram itself is left as it is.
    pub fn of(histogram: &Histogram) -> (intensity: Intensity)
        ensures
            intensity.is_scaled_from(histogram),
    {
        let grid = histogram.grid();
        let counts = histogram.counts();
        let peak: u64 = histogram.peak();
        let mut levels: Vec<u8> = Vec::new();
        let mut index: usize = 0;
        while index < counts.len()
            invariant
                index <= counts.len(),
                levels.len() == index,
                peak == peak_of(counts@),
                forall|i: int|
                    0 <= i < index ==> levels[i] == level(counts[i] as nat, peak as nat) as u8,
            decreases counts.len() - index,
        {
            levels.push(rescale(counts[index], peak));
            index = index + 1;
        }
        proof {
            use_type_invariant(&grid);
            assert(levels@ =~= levels_of(counts@));
        }
        Intensity { grid, levels }
    }

    /// The grid that the intensities cover.
    #[verifier::when_used_as_spec(spec_grid)]
    pub fn grid(&self) -> (grid: Grid)
        ensures
            grid == self.spec_grid(),
    {
        self.grid
    }

    /// The intensities in row-major order, one per cell of the grid.
    pub fn levels(&self) -> (levels: &Vec<u8>)
        ensures
            levels@ == self@,
            levels@.len() == self.spec_grid().cells(),
    {
        proof {
            use_type_invariant(self);
        }
        &self.levels
    }

    /// The intensity at `pixel`, or `None` outside the grid.
    pub fn level_at(&self, pixel: Pixel) -> (level: Option<u8>)
        ensures
            level.is_some() == self.spec_grid().holds(pixel),
            level.is_some() ==> level.unwrap() == self@[self.spec_grid().place(pixel) as int],
    {
        proof {
            use_type_invariant(self);
        }
        match self.grid.index_of(pixel) {
            Some(index) => Some(self.levels[index]),
            None => None,
        }
    }
}

} // verus!
