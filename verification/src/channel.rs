//! Colour channels and the rule that decides which of them an escaped
//! trajectory is drawn into.
//!
//! Every channel has an iteration cap of its own. A trajectory that escaped at
//! iteration `L` is drawn into a channel exactly if `L` is at most that
//! channel's cap, so a quick escape shows in every channel and a slow one only
//! in the channels with a large cap.

use vstd::prelude::*;
use crate::grid::{row_major_in_range, Grid, Pixel};
use crate::histogram::{bumped, saturating, summed, summed_onto, Histogram};
use crate::normalize::Intensity;
use crate::trajectory::Trajectory;

verus! {

/// How many of the steps in `cells` fell on `pixel`.
pub open spec fn hits(cells: Seq<Option<Pixel>>, pixel: Pixel) -> nat
    decreases cells.len(),
{
    if cells.len() == 0 {
        0
    } else {
        hits(cells.drop_last(), pixel) + if cells.last() == Some(pixel) {
            1nat
        } else {
            0nat
        }
    }
}

/// Whether a trajectory that escaped at iteration `len` is drawn into a
/// channel whose cap is `cap`.
pub open spec fn eligible(len: nat, cap: nat) -> bool {
    len <= cap
}

/// The number of leading steps that a channel with cap `cap` records of an
/// eligible trajectory of `len` steps.
pub open spec fn prefix_len(len: nat, cap: nat) -> nat {
    if len <= cap {
        len
    } else {
        cap
    }
}

/// The steps of `trajectory` that a channel with cap `cap` records: none
/// unless the trajectory escaped and is eligible for the channel.
pub open spec fn recorded_steps(trajectory: &Trajectory, cap: nat) -> Seq<Option<Pixel>> {
    if trajectory.has_escaped() && eligible(trajectory@.len(), cap) {
        trajectory@.take(prefix_len(trajectory@.len(), cap) as int)
    } else {
        Seq::empty()
    }
}

/// One more step adds one hit for the pixel it fell on and none for any other.
pub proof fn hits_of_next_step(cells: Seq<Option<Pixel>>, upto: int, pixel: Pixel)
    requires
        0 <= upto < cells.len(),
    ensures
        cells[upto] == Some(pixel) ==> hits(cells.take(upto + 1), pixel) == hits(
            cells.take(upto),
            pixel,
        ) + 1,
        cells[upto] != Some(pixel) ==> hits(cells.take(upto + 1), pixel) == hits(
            cells.take(upto),
            pixel,
        ),
{
    assert(cells.take(upto + 1).drop_last() =~= cells.take(upto));
}

/// A trajectory that escaped at iteration `L` contributes to a channel exactly
/// if `L` is at most the channel's cap, and then with every one of its steps.
/// A trajectory that did not escape contributes to no channel.
pub proof fn contributes_iff_within_cap(trajectory: &Trajectory, cap: nat)
    requires
        trajectory.well_formed(),
    ensures
        trajectory.has_escaped() && trajectory@.len() <= cap ==> recorded_steps(trajectory, cap)
            == trajectory@,
        trajectory.has_escaped() && trajectory@.len() > cap ==> recorded_steps(trajectory, cap)
            == Seq::<Option<Pixel>>::empty(),
        !trajectory.has_escaped() ==> recorded_steps(trajectory, cap) == Seq::<
            Option<Pixel>,
        >::empty(),
        recorded_steps(trajectory, cap).len() > 0 <==> trajectory.has_escaped()
            && trajectory@.len() <= cap,
{
    if trajectory.has_escaped() && trajectory@.len() <= cap {
        assert(trajectory@.take(trajectory@.len() as int) =~= trajectory@);
    }
}

/// A channel that takes a trajectory takes more hits the larger its cap: a
/// trajectory that a channel records is recorded by every channel whose cap
/// is at least as large.
pub proof fn larger_cap_records_more(trajectory: &Trajectory, smaller: nat, larger: nat)
    requires
        trajectory.well_formed(),
        smaller <= larger,
    ensures
        recorded_steps(trajectory, smaller).len() > 0 ==> recorded_steps(trajectory, larger)
            == recorded_steps(trajectory, smaller),
{
    contributes_iff_within_cap(trajectory, smaller);
    contributes_iff_within_cap(trajectory, larger);
}

/// One output channel: its iteration cap and the hits drawn into it.
pub struct Channel {
    cap: usize,
    histogram: Histogram,
}

impl Channel {
    /// The iteration cap of the channel.
    pub closed spec fn spec_cap(&self) -> usize {
        self.cap
    }

    /// The hits drawn into the channel so far.
    pub closed spec fn spec_histogram(&self) -> &Histogram {
        &self.histogram
    }

    /// The grid that the channel covers.
    pub open spec fn spec_grid(&self) -> Grid {
        self.spec_histogram().spec_grid()
    }

    /// Whether this channel is `before` with `trajectory` drawn into it: same
    /// cap, same grid, and at every pixel the hits that were there plus the
    /// hits of the recorded steps on that pixel. Steps outside the grid are
    /// dropped.
    pub open spec fn is_drawn_from(&self, before: &Channel, trajectory: &Trajectory) -> bool {
        &&& self.spec_cap() == before.spec_cap()
        &&& self.spec_grid() == before.spec_grid()
        &&& forall|pixel: Pixel|
            before.spec_grid().holds(pixel) ==> #[trigger] self.spec_histogram().tally(pixel)
                == saturating(
                before.spec_histogram().tally(pixel) + hits(
                    recorded_steps(trajectory, before.spec_cap() as nat),
                    pixel,
                ),
            )
    }

    /// Whether this is a channel over `grid` with cap `cap` and no hit yet.
    pub open spec fn is_empty_over(&self, grid: Grid, cap: usize) -> bool {
        &&& self.spec_cap() == cap
        &&& self.spec_grid() == grid
        &&& self.spec_histogram()@ == Seq::new(grid.cells(), |i: int| 0u64)
    }

    /// Whether this channel is `before` with one more hit at `pixel`, a pixel
    /// of the grid.
    pub open spec fn is_bumped_from(&self, before: &Channel, pixel: Pixel) -> bool {
        &&& self.spec_cap() == before.spec_cap()
        &&& self.spec_grid() == before.spec_grid()
        &&& self.spec_histogram()@ == bumped(
            before.spec_histogram()@,
            before.spec_grid().place(pixel) as int,
            1,
        )
    }

    /// Whether `other` can be added to this channel: same cap, same grid.
    pub open spec fn matches(&self, other: &Channel) -> bool {
        self.spec_cap() == other.spec_cap() && self.spec_grid() == other.spec_grid()
    }

    /// Whether this channel is `before` with the hits of `other` added.
    pub open spec fn is_sum_of(&self, before: &Channel, other: &Channel) -> bool {
        &&& self.spec_cap() == before.spec_cap()
        &&& self.spec_grid() == before.spec_grid()
        &&& self.spec_histogram()@ == summed(before.spec_histogram()@, other.spec_histogram()@)
    }

    /// Whether this channel is `before` with the hits of every table in
    /// `tables` added, one table after the other.
    pub open spec fn is_total_of(&self, before: &Channel, tables: Seq<Seq<u64>>) -> bool {
        &&& self.spec_cap() == before.spec_cap()
        &&& self.spec_grid() == before.spec_grid()
        &&& self.spec_histogram()@ == summed_onto(before.spec_histogram()@, tables)
    }

    /// An empty channel over `grid` with iteration cap `cap`.
    pub fn new(grid: Grid, cap: usize) -> (channel: Channel)
        ensures
            channel.is_empty_over(grid, cap),
    {
        Channel { cap, histogram: Histogram::new(grid) }
    }

    /// The iteration cap of the channel.
    #[verifier::when_used_as_spec(spec_cap)]
    pub fn cap(&self) -> (cap: usize)
        ensures
            cap == self.spec_cap(),
    {
        self.cap
    }

    /// The hits drawn into the channel so far.
    #[verifier::when_used_as_spec(spec_histogram)]
    pub fn histogram(&self) -> (histogram: &Histogram)
        ensures
            histogram == self.spec_histogram(),
    {
        &self.histogram
    }

    /// Counts one hit at `pixel`, whatever the channel's cap. A pixel outside
    /// the grid is dropped: the channel stays as it is and `false` is
    /// returned.
    pub fn increment(&mut self, pixel: Pixel) -> (counted: bool)
        ensures
            counted == old(self).spec_grid().holds(pixel),
            counted ==> final(self).is_bumped_from(old(self), pixel),
            !counted ==> *final(self) == *old(self),
    {
        self.histogram.increment(pixel)
    }

    /// Whether `trajectory` would be drawn into this channel: it escaped, and
    /// did so within the channel's cap.
    pub fn accepts(&self, trajectory: &Trajectory) -> (accepted: bool)
        ensures
            accepted == (trajectory.has_escaped() && eligible(
                trajectory@.len(),
                self.spec_cap() as nat,
            )),
            accepted == (recorded_steps(trajectory, self.spec_cap() as nat).len() > 0),
    {
        trajectory.escaped() && trajectory.len() <= self.cap
    }

    /// Draws `trajectory` into the channel and returns the number of steps
    /// recorded. A trajectory that did not escape, or escaped later than the
    /// cap allows, leaves the channel as it is.
    pub fn record(&mut self, trajectory: &Trajectory) -> (recorded: usize)
        ensures
            final(self).is_drawn_from(old(self), trajectory),
            recorded == recorded_steps(trajectory, old(self).spec_cap() as nat).len(),
    {
        if !self.accepts(trajectory) {
            return 0;
        }
        let cells = trajectory.cells();
        let prefix: usize = if cells.len() <= self.cap {
            cells.len()
        } else {
            self.cap
        };
        let grid = self.histogram.grid();
        let mut step: usize = 0;
        while step < prefix
            invariant
                step <= prefix <= cells.len(),
                self.cap == old(self).cap,
                grid == old(self).histogram.spec_grid(),
                grid == self.histogram.spec_grid(),
                forall|pixel: Pixel|
                    grid.holds(pixel) ==> #[trigger] self.histogram.tally(pixel) == saturating(
                        old(self).histogram.tally(pixel) + hits(cells@.take(step as int), pixel),
                    ),
            decreases prefix - step,
        {
            let ghost before = self.histogram;
            proof {
                use_type_invariant(&self.histogram);
            }
            match cells[step] {
                Some(hit) => {
                    self.increment(hit);
                },
                None => {},
            }
            proof {
                use_type_invariant(&grid);
                let after = self.histogram;
                assert forall|pixel: Pixel| grid.holds(pixel) implies #[trigger] after.tally(pixel)
                    == saturating(
                    old(self).histogram.tally(pixel) + hits(cells@.take(step + 1), pixel),
                ) by {
                    hits_of_next_step(cells@, step as int, pixel);
                    assert(before.tally(pixel) == saturating(
                        old(self).histogram.tally(pixel) + hits(cells@.take(step as int), pixel),
                    ));
                    if let Some(hit) = cells[step as int] {
                        if grid.holds(hit) {
                            row_major_in_range(
                                grid.cols(),
                                grid.rows(),
                                hit.x as nat,
                                hit.y as nat,
                            );
                            row_major_in_range(
                                grid.cols(),
                                grid.rows(),
                                pixel.x as nat,
                                pixel.y as nat,
                            );
                        }
                    }
                }
            }
            step = step + 1;
        }
        prefix
    }

    /// Whether `other` can be added to this channel: same cap, same grid.
    pub fn is_compatible(&self, other: &Channel) -> (compatible: bool)
        ensures
            compatible == self.matches(other),
    {
        self.cap == other.cap && self.histogram.grid().same_as(&other.histogram.grid())
    }

    /// Adds the hits of `other` to this channel. Channels with different caps
    /// or grids are not added: this one stays as it is and `false` is returned.
    pub fn merge(&mut self, other: &Channel) -> (merged: bool)
        ensures
            merged == old(self).matches(other),
            merged ==> final(self).is_sum_of(old(self), other),
            !merged ==> *final(self) == *old(self),
    {
        if self.cap != other.cap {
            return false;
        }
        self.histogram.merge(&other.histogram)
    }

    /// The channel's hits rescaled to 8-bit intensities.
    pub fn normalize(&self) -> (intensity: Intensity)
        ensures
            intensity.is_scaled_from(self.spec_histogram()),
    {
        Intensity::of(&self.histogram)
    }
}

} // verus!
