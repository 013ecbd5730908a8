//! The set of channels of one picture, filled together: every escaped
//! trajectory is offered to each channel, and each channel takes it or not by
//! its own cap.

use vstd::prelude::*;
use crate::channel::Channel;
use crate::grid::{Grid, Pixel};
use crate::normalize::Intensity;
use crate::trajectory::Trajectory;

verus! {

/// The largest cap among `channels`, zero where there is no channel.
pub open spec fn largest_cap(channels: Seq<Channel>) -> usize
    decreases channels.len(),
{
    if channels.len() == 0 {
        0
    } else {
        let rest = largest_cap(channels.drop_last());
        if channels.last().spec_cap() > rest {
            channels.last().spec_cap()
        } else {
            rest
        }
    }
}

/// No channel has a cap above the largest cap.
pub proof fn largest_cap_bounds_every_cap(channels: Seq<Channel>, i: int)
    requires
        0 <= i < channels.len(),
    ensures
        channels[i].spec_cap() <= largest_cap(channels),
    decreases channels.len(),
{
    if i < channels.len() - 1 {
        largest_cap_bounds_every_cap(channels.drop_last(), i);
    }
}

/// Where there is a channel at all, the largest cap is the cap of one of them.
pub proof fn largest_cap_is_attained(channels: Seq<Channel>) -> (i: int)
    requires
        channels.len() > 0,
    ensures
        0 <= i < channels.len(),
        channels[i].spec_cap() == largest_cap(channels),
    decreases channels.len(),
{
    let rest = channels.drop_last();
    if rest.len() == 0 {
        assert(largest_cap(rest) == 0);
        channels.len() - 1
    } else if channels.last().spec_cap() > largest_cap(rest) {
        channels.len() - 1
    } else {
        largest_cap_is_attained(rest)
    }
}

/// The tables that the compositors in `parts` hold for channel `c`, one per
/// compositor and in their order.
pub open spec fn channel_tables(parts: Seq<Compositor>, c: int) -> Seq<Seq<u64>> {
    Seq::new(parts.len(), |w: int| parts[w]@[c].spec_histogram()@)
}

/// The channels of one picture, in the order in which they were configured.
pub struct Compositor {
    channels: Vec<Channel>,
}

impl View for Compositor {
    type V = Seq<Channel>;

    /// The channels in the order in which they were configured.
    closed spec fn view(&self) -> Seq<Channel> {
        self.channels@
    }
}

impl Compositor {
    /// Whether `other` can be added to this compositor: as many channels, and
    /// each with the cap and grid of its counterpart.
    pub open spec fn matches(&self, other: &Compositor) -> bool {
        &&& self@.len() == other@.len()
        &&& forall|i: int| 0 <= i < self@.len() ==> (#[trigger] self@[i]).matches(&other@[i])
    }

    /// One empty channel over `grid` for each cap in `caps`, in that order.
    pub fn new(grid: Grid, caps: &Vec<usize>) -> (compositor: Compositor)
        ensures
            compositor@.len() == caps@.len(),
            forall|i: int|
                0 <= i < caps@.len() ==> (#[trigger] compositor@[i]).is_empty_over(grid, caps@[i]),
    {
        let mut channels: Vec<Channel> = Vec::new();
        let mut index: usize = 0;
        while index < caps.len()
            invariant
                index <= caps.len(),
                channels.len() == index,
                forall|i: int|
                    0 <= i < index ==> (#[trigger] channels@[i]).is_empty_over(grid, caps@[i]),
            decreases caps.len() - index,
        {
            channels.push(Channel::new(grid, caps[index]));
            index = index + 1;
        }
        Compositor { channels }
    }

    /// The number of channels.
    pub fn len(&self) -> (len: usize)
        ensures
            len == self@.len(),
    {
        self.channels.len()
    }

    /// The channel at `index`, or `None` where there are not that many.
    pub fn channel(&self, index: usize) -> (channel: Option<&Channel>)
        ensures
            channel.is_some() == (index < self@.len()),
            channel.is_some() ==> *channel.unwrap() == self@[index as int],
    {
        if index < self.channels.len() {
            Some(&self.channels[index])
        } else {
            None
        }
    }

    /// The largest cap of any channel: the number of iterations after which a
    /// sample that has not escaped can be given up, since no channel would
    /// take it any more.
    pub fn max_cap(&self) -> (cap: usize)
        ensures
            cap == largest_cap(self@),
    {
        let mut cap: usize = 0;
        let mut index: usize = 0;
        while index < self.channels.len()
            invariant
                index <= self.channels.len(),
                cap == largest_cap(self.channels@.take(index as int)),
            decreases self.channels.len() - index,
        {
            proof {
                assert(self.channels@.take(index + 1).drop_last() =~= self.channels@.take(
                    index as int,
                ));
            }
            let next: usize = self.channels[index].cap();
            if next > cap {
                cap = next;
            }
            index = index + 1;
        }
        assert(self.channels@.take(self.channels.len() as int) =~= self.channels@);
        cap
    }

    /// Counts one hit at `pixel` in the channel at `channel`, and in no other.
    /// Where there is no such channel, or the pixel lies outside its grid,
    /// nothing is counted and `false` is returned.
    pub fn increment(&mut self, channel: usize, pixel: Pixel) -> (counted: bool)
        ensures
            counted == (channel < old(self)@.len() && old(self)@[channel as int].spec_grid().holds(
                pixel,
            )),
            counted ==> final(self)@.len() == old(self)@.len(),
            counted ==> final(self)@[channel as int].is_bumped_from(
                &old(self)@[channel as int],
                pixel,
            ),
            counted ==> forall|c: int|
                0 <= c < old(self)@.len() && c != channel ==> #[trigger] final(self)@[c] == old(
                    self,
                )@[c],
            !counted ==> *final(self) == *old(self),
    {
        if channel < self.channels.len() && self.channels[channel].histogram().grid().contains(
            pixel,
        ) {
            self.channels[channel].increment(pixel)
        } else {
            false
        }
    }

    /// Offers `trajectory` to every channel. Each channel draws it or leaves
    /// it by its own cap; a trajectory that did not escape changes nothing.
    pub fn record(&mut self, trajectory: &Trajectory)
        ensures
            final(self)@.len() == old(self)@.len(),
            forall|i: int|
                0 <= i < old(self)@.len() ==> (#[trigger] final(self)@[i]).is_drawn_from(
                    &old(self)@[i],
                    trajectory,
                ),
    {
        let mut index: usize = 0;
        while index < self.channels.len()
            invariant
                index <= self.channels.len(),
                self.channels.len() == old(self).channels.len(),
                forall|i: int|
                    0 <= i < index ==> (#[trigger] self.channels@[i]).is_drawn_from(
                        &old(self).channels@[i],
                        trajectory,
                    ),
                forall|i: int|
                    index <= i < self.channels.len() ==> #[trigger] self.channels@[i] == old(
                        self,
                    ).channels@[i],
            decreases self.channels.len() - index,
        {
            self.channels[index].record(trajectory);
            index = index + 1;
        }
    }

    /// Whether `other` can be added to this compositor.
    pub fn is_compatible(&self, other: &Compositor) -> (compatible: bool)
        ensures
            compatible == self.matches(other),
    {
        if self.channels.len() != other.channels.len() {
            return false;
        }
        let mut index: usize = 0;
        while index < self.channels.len()
            invariant
                index <= self.channels.len(),
                self.channels.len() == other.channels.len(),
                forall|i: int|
                    0 <= i < index ==> (#[trigger] self.channels@[i]).matches(
                        &other.channels@[i],
                    ),
            decreases self.channels.len() - index,
        {
            if !self.channels[index].is_compatible(&other.channels[index]) {
                return false;
            }
            index = index + 1;
        }
        true
    }

    /// Adds the hits of `other`, channel by channel. Compositors that do not
    /// match are not added: this one stays as it is and `false` is returned.
    pub fn merge(&mut self, other: &Compositor) -> (merged: bool)
        ensures
            merged == old(self).matches(other),
            merged ==> final(self)@.len() == old(self)@.len(),
            merged ==> forall|i: int|
                0 <= i < old(self)@.len() ==> (#[trigger] final(self)@[i]).is_sum_of(
                    &old(self)@[i],
                    &other@[i],
                ),
            !merged ==> *final(self) == *old(self),
    {
        if !self.is_compatible(other) {
            return false;
        }
        let mut index: usize = 0;
        while index < self.channels.len()
            invariant
                index <= self.channels.len(),
                self.channels.len() == old(self).channels.len(),
                old(self).matches(other),
                forall|i: int|
                    0 <= i < index ==> (#[trigger] self.channels@[i]).is_sum_of(
                        &old(self).channels@[i],
                        &other.channels@[i],
                    ),
                forall|i: int|
                    index <= i < self.channels.len() ==> #[trigger] self.channels@[i] == old(
                        self,
                    ).channels@[i],
            decreases self.channels.len() - index,
        {
            assert(old(self)@[index as int].matches(&other@[index as int]));
            self.channels[index].merge(&other.channels[index]);
            index = index + 1;
        }
        true
    }

    /// Adds the hits of every compositor in `parts`: the join of the workers'
    /// partial results. Unless all of them match this one nothing is added:
    /// this one stays as it is and `false` is returned.
    pub fn merge_all(&mut self, parts: &Vec<Compositor>) -> (merged: bool)
        ensures
            merged == (forall|w: int|
                0 <= w < parts@.len() ==> old(self).matches(&#[trigger] parts@[w])),
            merged ==> final(self)@.len() == old(self)@.len(),
            merged ==> forall|c: int|
                0 <= c < old(self)@.len() ==> (#[trigger] final(self)@[c]).is_total_of(
                    &old(self)@[c],
                    channel_tables(parts@, c),
                ),
            !merged ==> *final(self) == *old(self),
    {
        let mut checked: usize = 0;
        while checked < parts.len()
            invariant
                checked <= parts.len(),
                forall|w: int| 0 <= w < checked ==> self.matches(&#[trigger] parts@[w]),
            decreases parts.len() - checked,
        {
            if !self.is_compatible(&parts[checked]) {
                return false;
            }
            checked = checked + 1;
        }
        let mut part: usize = 0;
        while part < parts.len()
            invariant
                part <= parts.len(),
                self@.len() == old(self)@.len(),
                forall|w: int| 0 <= w < parts@.len() ==> old(self).matches(&#[trigger] parts@[w]),
                forall|c: int|
                    0 <= c < old(self)@.len() ==> (#[trigger] self@[c]).is_total_of(
                        &old(self)@[c],
                        channel_tables(parts@.take(part as int), c),
                    ),
            decreases parts.len() - part,
        {
            let ghost before = self@;
            proof {
                assert(old(self).matches(&parts@[part as int]));
                assert forall|c: int| 0 <= c < self@.len() implies (#[trigger] self@[c]).matches(
                    &parts@[part as int]@[c],
                ) by {
                    assert(old(self)@[c].matches(&parts@[part as int]@[c]));
                }
            }
            let merged = self.merge(&parts[part]);
            proof {
                assert(merged);
                assert forall|c: int| 0 <= c < old(self)@.len() implies (
                #[trigger] self@[c]).is_total_of(
                    &old(self)@[c],
                    channel_tables(parts@.take(part + 1), c),
                ) by {
                    assert(self@[c].is_sum_of(&before[c], &parts@[part as int]@[c]));
                    assert(before[c].is_total_of(
                        &old(self)@[c],
                        channel_tables(parts@.take(part as int), c),
                    ));
                    let tables = channel_tables(parts@.take(part + 1), c);
                    assert(tables.drop_last() =~= channel_tables(parts@.take(part as int), c));
                    assert(tables.last() == parts@[part as int]@[c].spec_histogram()@);
                }
            }
            part = part + 1;
        }
        assert(parts@.take(parts@.len() as int) =~= parts@);
        true
    }

    /// Every channel's hits rescaled to 8-bit intensities, each channel by
    /// its own largest counter.
    pub fn normalize(&self) -> (grids: Vec<Intensity>)
        ensures
            grids@.len() == self@.len(),
            forall|i: int|
                0 <= i < self@.len() ==> (#[trigger] grids@[i]).is_scaled_from(
                    self@[i].spec_histogram(),
                ),
    {
        let mut grids: Vec<Intensity> = Vec::new();
        let mut index: usize = 0;
        while index < self.channels.len()
            invariant
                index <= self.channels.len(),
                grids.len() == index,
                forall|i: int|
                    0 <= i < index ==> (#[trigger] grids@[i]).is_scaled_from(
                        self.channels@[i].spec_histogram(),
                    ),
            decreases self.channels.len() - index,
        {
            grids.push(self.channels[index].normalize());
            index = index + 1;
        }
        grids
    }
}

} // verus!
