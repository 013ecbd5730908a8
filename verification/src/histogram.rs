//! Per-pixel hit counters. A histogram belongs to one worker while it is
//! filled; the histograms of several workers are added cell by cell afterwards,
//! so that no hit is lost whatever the order in which the workers ran.

use vstd::prelude::*;
use crate::grid::{cell_is_a_pixel, Grid, Pixel};

verus! {

/// The counter value that stands for `n` hits: `n` itself as long as it fits,
/// the largest counter value from there on. Counters never wrap around.
pub open spec fn saturating(n: nat) -> u64 {
    if n <= u64::MAX {
        n as u64
    } else {
        u64::MAX
    }
}

/// The table `counts` after `times` more hits at place `place`.
pub open spec fn bumped(counts: Seq<u64>, place: int, times: nat) -> Seq<u64> {
    counts.update(place, saturating(counts[place] as nat + times))
}

/// The cell-by-cell sum of two tables of counters of the same length.
pub open spec fn summed(a: Seq<u64>, b: Seq<u64>) -> Seq<u64> {
    Seq::new(a.len(), |i: int| saturating((a[i] + b[i]) as nat))
}

/// The hits that the tables of several workers hold at place `i`, added up.
pub open spec fn total_at(tables: Seq<Seq<u64>>, i: int) -> nat
    decreases tables.len(),
{
    if tables.len() == 0 {
        0
    } else {
        total_at(tables.drop_last(), i) + tables.last()[i] as nat
    }
}

/// The table `base` with each of `tables` added to it in turn.
pub open spec fn summed_onto(base: Seq<u64>, tables: Seq<Seq<u64>>) -> Seq<u64>
    decreases tables.len(),
{
    if tables.len() == 0 {
        base
    } else {
        summed(summed_onto(base, tables.drop_last()), tables.last())
    }
}

/// Saturating once at the end gives what saturating after every addition
/// gives.
pub proof fn saturating_absorbs(n: nat, more: nat)
    ensures
        saturating(saturating(n) as nat + more) == saturating(n + more),
{
}

/// Adding two tables does not depend on which of them comes first.
pub proof fn summed_commutes(a: Seq<u64>, b: Seq<u64>)
    requires
        a.len() == b.len(),
    ensures
        summed(a, b) == summed(b, a),
{
    assert(summed(a, b) =~= summed(b, a));
}

/// Adding three tables does not depend on which two are added first.
pub proof fn summed_associates(a: Seq<u64>, b: Seq<u64>, c: Seq<u64>)
    requires
        a.len() == b.len(),
        b.len() == c.len(),
    ensures
        summed(summed(a, b), c) == summed(a, summed(b, c)),
{
    assert(summed(summed(a, b), c) =~= summed(a, summed(b, c)));
}

/// Adding the tables of any number of workers loses no hit: every cell ends
/// at what it held before plus all that the workers counted there, saturated.
pub proof fn summed_onto_counts_every_hit(base: Seq<u64>, tables: Seq<Seq<u64>>, i: int)
    requires
        0 <= i < base.len(),
        forall|w: int| 0 <= w < tables.len() ==> (#[trigger] tables[w]).len() == base.len(),
    ensures
        summed_onto(base, tables).len() == base.len(),
        summed_onto(base, tables)[i] == saturating(base[i] as nat + total_at(tables, i)),
    decreases tables.len(),
{
    if tables.len() > 0 {
        let rest = tables.drop_last();
        assert forall|w: int| 0 <= w < rest.len() implies (#[trigger] rest[w]).len()
            == base.len() by {
            assert(rest[w] == tables[w]);
        }
        summed_onto_counts_every_hit(base, rest, i);
        saturating_absorbs(base[i] as nat + total_at(rest, i), tables.last()[i] as nat);
    }
}

/// Where each of the workers counted `hits` hits at place `i`, their tables
/// hold `workers * hits` hits there between them.
pub proof fn total_of_equal_shares(tables: Seq<Seq<u64>>, i: int, hits: nat)
    requires
        forall|w: int| 0 <= w < tables.len() ==> (#[trigger] tables[w])[i] == hits,
    ensures
        total_at(tables, i) == tables.len() * hits,
    decreases tables.len(),
{
    if tables.len() > 0 {
        let rest = tables.drop_last();
        assert forall|w: int| 0 <= w < rest.len() implies (#[trigger] rest[w])[i] == hits by {
            assert(rest[w] == tables[w]);
        }
        total_of_equal_shares(rest, i, hits);
        assert(tables.len() * hits == rest.len() * hits + hits) by (nonlinear_arith)
            requires
                tables.len() == rest.len() + 1,
        ;
    }
}

/// Counters only ever grow: neither more hits nor the hits of another table
/// take anything away from a cell.
pub proof fn counters_never_decrease(
    counts: Seq<u64>,
    place: int,
    times: nat,
    other: Seq<u64>,
    i: int,
)
    requires
        0 <= place < counts.len(),
        0 <= i < counts.len(),
        other.len() == counts.len(),
    ensures
        counts[i] <= bumped(counts, place, times)[i],
        counts[i] <= summed(counts, other)[i],
{
}

/// Hits at one place add up: first `first` hits and then `then` more leave the
/// table as `first + then` hits at once do.
pub proof fn bumped_adds_up(counts: Seq<u64>, place: int, first: nat, then: nat)
    requires
        0 <= place < counts.len(),
    ensures
        bumped(bumped(counts, place, first), place, then) == bumped(counts, place, first + then),
{
    saturating_absorbs(counts[place] as nat + first, then);
    assert(bumped(bumped(counts, place, first), place, then) =~= bumped(
        counts,
        place,
        first + then,
    ));
}

/// No hit is lost between workers: where each of `workers` workers starts
/// from an empty table and counts `hits` hits at the same place, the sum of
/// their tables holds exactly `workers * hits` hits there, as long as that
/// number fits in a counter.
pub proof fn no_hit_is_lost(cells: nat, place: int, workers: nat, hits: nat)
    requires
        0 <= place < cells,
        workers * hits <= u64::MAX,
    ensures
        summed_onto(
            Seq::new(cells, |i: int| 0u64),
            Seq::new(workers, |w: int| bumped(Seq::new(cells, |i: int| 0u64), place, hits)),
        )[place] == workers * hits,
{
    let empty = Seq::new(cells, |i: int| 0u64);
    let share = bumped(empty, place, hits);
    let tables = Seq::new(workers, |w: int| share);
    if workers > 0 {
        assert(hits <= workers * hits) by (nonlinear_arith)
            requires
                workers > 0,
        ;
        assert(share[place] == hits);
        total_of_equal_shares(tables, place, hits);
    } else {
        assert(workers * hits == 0) by (nonlinear_arith)
            requires
                workers == 0,
        ;
    }
    summed_onto_counts_every_hit(empty, tables, place);
}

/// The largest counter of a table, zero for an empty table.
pub open spec fn peak_of(counts: Seq<u64>) -> u64
    decreases counts.len(),
{
    if counts.len() == 0 {
        0
    } else {
        let rest = peak_of(counts.drop_last());
        if counts.last() > rest {
            counts.last()
        } else {
            rest
        }
    }
}

/// No counter of a table exceeds the table's peak.
pub proof fn peak_bounds_every_count(counts: Seq<u64>, i: int)
    requires
        0 <= i < counts.len(),
    ensures
        counts[i] <= peak_of(counts),
    decreases counts.len(),
{
    if i < counts.len() - 1 {
        peak_bounds_every_count(counts.drop_last(), i);
    }
}

/// The peak of a table that is not empty is the value of one of its counters.
pub proof fn peak_is_attained(counts: Seq<u64>) -> (i: int)
    requires
        counts.len() > 0,
    ensures
        0 <= i < counts.len(),
        counts[i] == peak_of(counts),
    decreases counts.len(),
{
    let rest = counts.drop_last();
    if rest.len() == 0 {
        assert(peak_of(rest) == 0);
        counts.len() - 1
    } else if counts.last() > peak_of(rest) {
        counts.len() - 1
    } else {
        peak_is_attained(rest)
    }
}

/// A grid of hit counters, one per pixel, laid out in row-major order.
pub struct Histogram {
    grid: Grid,
    counts: Vec<u64>,
}

impl View for Histogram {
    type V = Seq<u64>;

    /// The counters in row-major order.
    closed spec fn view(&self) -> Seq<u64> {
        self.counts@
    }
}

impl Histogram {
    /// The grid that the histogram covers.
    pub closed spec fn spec_grid(&self) -> Grid {
        self.grid
    }

    #[verifier::type_invariant]
    pub open spec fn well_formed(self) -> bool {
        &&& self.spec_grid().well_formed()
        &&& self@.len() == self.spec_grid().cells()
    }

    /// The number of hits counted at `pixel`; zero outside the grid.
    pub open spec fn tally(self, pixel: Pixel) -> nat {
        if self.spec_grid().holds(pixel) {
            self@[self.spec_grid().place(pixel) as int] as nat
        } else {
            0
        }
    }

    /// Two histograms over one grid that count the same at every pixel of the
    /// grid hold the same counters: a histogram is known by its tallies.
    pub proof fn tallies_determine_counts(&self, other: &Histogram)
        requires
            self.well_formed(),
            other.well_formed(),
            self.spec_grid() == other.spec_grid(),
            forall|pixel: Pixel|
                self.spec_grid().holds(pixel) ==> #[trigger] self.tally(pixel) == other.tally(
                    pixel,
                ),
        ensures
            self@ == other@,
    {
        let grid = self.spec_grid();
        assert forall|i: int| 0 <= i < self@.len() implies self@[i] == other@[i] by {
            cell_is_a_pixel(grid.cols(), grid.rows(), i as nat);
            let pixel = Pixel {
                x: (i % grid.cols() as int) as usize,
                y: (i / grid.cols() as int) as usize,
            };
            assert(grid.holds(pixel));
            assert(grid.place(pixel) == i);
            assert(self.tally(pixel) == other.tally(pixel));
        }
        assert(self@ =~= other@);
    }

    /// A histogram over `grid` with every counter at zero.
    pub fn new(grid: Grid) -> (histogram: Histogram)
        ensures
            histogram.spec_grid() == grid,
            histogram@ == Seq::new(grid.cells(), |i: int| 0u64),
    {
        proof {
            use_type_invariant(&grid);
        }
        let cells: usize = grid.cell_count();
        let mut counts: Vec<u64> = Vec::new();
        while counts.len() < cells
            invariant
                counts.len() <= cells,
                forall|i: int| 0 <= i < counts.len() ==> counts[i] == 0u64,
            decreases cells - counts.len(),
        {
            counts.push(0u64);
        }
        assert(counts@ =~= Seq::new(grid.cells(), |i: int| 0u64));
        Histogram { grid, counts }
    }

    /// The grid that the histogram covers.
    #[verifier::when_used_as_spec(spec_grid)]
    pub fn grid(&self) -> (grid: Grid)
        ensures
            grid == self.spec_grid(),
    {
        self.grid
    }

    /// Counts one hit at `pixel`. A pixel outside the grid is dropped: the
    /// histogram stays as it is and `false` is returned. A counter that has
    /// reached the largest value stays there.
    pub fn increment(&mut self, pixel: Pixel) -> (counted: bool)
        ensures
            final(self).spec_grid() == old(self).spec_grid(),
            counted == old(self).spec_grid().holds(pixel),
            counted ==> final(self)@ == bumped(
                old(self)@,
                old(self).spec_grid().place(pixel) as int,
                1,
            ),
            !counted ==> *final(self) == *old(self),
    {
        proof {
            use_type_invariant(&*self);
        }
        match self.grid.index_of(pixel) {
            Some(index) => {
                let count: u64 = self.counts[index];
                let next: u64 = if count < u64::MAX {
                    count + 1
                } else {
                    count
                };
                self.counts[index] = next;
                true
            },
            None => false,
        }
    }

    /// The number of hits counted at `pixel`, or `None` outside the grid.
    pub fn count(&self, pixel: Pixel) -> (count: Option<u64>)
        ensures
            count.is_some() == self.spec_grid().holds(pixel),
            count.is_some() ==> count.unwrap() == self.tally(pixel),
    {
        proof {
            use_type_invariant(self);
        }
        match self.grid.index_of(pixel) {
            Some(index) => Some(self.counts[index]),
            None => None,
        }
    }

    /// The counters in row-major order, one per cell of the grid.
    pub fn counts(&self) -> (counts: &Vec<u64>)
        ensures
            counts@ == self@,
            counts@.len() == self.spec_grid().cells(),
    {
        proof {
            use_type_invariant(self);
        }
        &self.counts
    }

    /// Adds the counters of `other` to this histogram, cell by cell and
    /// saturating. Histograms over different grids are not added: this one
    /// stays as it is and `false` is returned.
    pub fn merge(&mut self, other: &Histogram) -> (merged: bool)
        ensures
            final(self).spec_grid() == old(self).spec_grid(),
            merged == (old(self).spec_grid() == other.spec_grid()),
            merged ==> final(self)@ == summed(old(self)@, other@),
            !merged ==> *final(self) == *old(self),
    {
        proof {
            use_type_invariant(&*self);
            use_type_invariant(other);
        }
        if !self.grid.same_as(&other.grid) {
            return false;
        }
        let cells: usize = self.counts.len();
        let mut index: usize = 0;
        while index < cells
            invariant
                index <= cells,
                cells == self.counts.len(),
                cells == other.counts.len(),
                self.well_formed(),
                self.grid == old(self).grid,
                self.counts.len() == old(self).counts.len(),
                forall|i: int|
                    0 <= i < index ==> self.counts[i] == saturating(
                        (old(self).counts[i] + other.counts[i]) as nat,
                    ),
                forall|i: int| index <= i < cells ==> self.counts[i] == old(self).counts[i],
            decreases cells - index,
        {
            let mine: u64 = self.counts[index];
            let theirs: u64 = other.counts[index];
            let sum: u64 = if mine <= u64::MAX - theirs {
                mine + theirs
            } else {
                u64::MAX
            };
            self.counts[index] = sum;
            index = index + 1;
        }
        assert(self.counts@ =~= summed(old(self).counts@, other.counts@));
        true
    }

    /// The largest counter of the histogram.
    pub fn peak(&self) -> (peak: u64)
        ensures
            peak == peak_of(self@),
    {
        let cells: usize = self.counts.len();
        let mut peak: u64 = 0;
        let mut index: usize = 0;
        while index < cells
            invariant
                index <= cells,
                cells == self.counts.len(),
                peak == peak_of(self.counts@.take(index as int)),
            decreases cells - index,
        {
            proof {
                assert(self.counts@.take(index + 1).drop_last() =~= self.counts@.take(
                    index as int,
                ));
            }
            let count: u64 = self.counts[index];
            if count > peak {
                peak = count;
            }
            index = index + 1;
        }
        assert(self.counts@.take(cells as int) =~= self.counts@);
        peak
    }
}

} // verus!
