//! The path of one sample through the grid, recorded step by step until the
//! sample escapes or its iteration budget is used up.
//!
//! The caller owns the arithmetic: it computes each value of the orbit, maps it
//! to a pixel, tests it for escape and reports both here. What is decided here
//! is how long the path may grow and how it ends.

use vstd::prelude::*;
use crate::grid::Pixel;

verus! {

/// How far a trajectory has come.
#[derive(Clone, Copy, Debug, PartialEq, Eq, Structural)]
pub enum Status {
    /// Neither escaped nor out of iterations: the next step is due.
    Running,
    /// The last recorded step left the escape radius.
    Escaped,
    /// The iteration budget is used up and no step escaped.
    Exhausted,
}

/// The status of a path with room for `cap` steps once it holds `len` steps,
/// none before the last escaped, and the last escaped or not as `escaped` says.
pub open spec fn status_after(len: nat, cap: nat, escaped: bool) -> Status {
    if escaped {
        Status::Escaped
    } else if len >= cap {
        Status::Exhausted
    } else {
        Status::Running
    }
}

/// The pixels visited by one sample, in order. A step that fell outside the
/// viewport is kept as `None`, so that the number of entries is the number of
/// iterations made.
pub struct Trajectory {
    cap: usize,
    cells: Vec<Option<Pixel>>,
    status: Status,
}

impl View for Trajectory {
    type V = Seq<Option<Pixel>>;

    /// The steps recorded so far, first step first.
    closed spec fn view(&self) -> Seq<Option<Pixel>> {
        self.cells@
    }
}

impl Trajectory {
    /// The largest number of steps that the trajectory may take.
    pub closed spec fn spec_cap(&self) -> usize {
        self.cap
    }

    /// How far the trajectory has come.
    pub closed spec fn spec_status(&self) -> Status {
        self.status
    }

    #[verifier::type_invariant]
    pub open spec fn well_formed(self) -> bool {
        &&& self@.len() <= self.spec_cap()
        &&& self.spec_status() == Status::Running ==> self@.len() < self.spec_cap()
        &&& self.spec_status() == Status::Exhausted ==> self@.len() == self.spec_cap()
        &&& self.spec_status() == Status::Escaped ==> self@.len() >= 1
    }

    /// Whether the trajectory ended by escaping. Only such a trajectory is
    /// ever drawn.
    pub open spec fn has_escaped(&self) -> bool {
        self.spec_status() == Status::Escaped
    }

    /// An empty trajectory with room for `cap` steps. With no room at all it
    /// is exhausted from the start.
    pub fn begin(cap: usize) -> (trajectory: Trajectory)
        ensures
            trajectory@ == Seq::<Option<Pixel>>::empty(),
            trajectory.spec_cap() == cap,
            trajectory.spec_status() == status_after(0, cap as nat, false),
    {
        let status = if cap == 0 {
            Status::Exhausted
        } else {
            Status::Running
        };
        Trajectory { cap, cells: Vec::new(), status }
    }

    /// Records the next step of the orbit: the pixel it fell on, if any, and
    /// whether it left the escape radius. Returns the status after the step.
    ///
    /// A trajectory that has ended takes no further steps: it stays as it is.
    pub fn visit(&mut self, cell: Option<Pixel>, escaped: bool) -> (status: Status)
        ensures
            final(self).spec_cap() == old(self).spec_cap(),
            status == final(self).spec_status(),
            old(self).spec_status() == Status::Running ==> final(self)@ == old(self)@.push(cell),
            old(self).spec_status() == Status::Running ==> status == status_after(
                old(self)@.len() + 1,
                old(self).spec_cap() as nat,
                escaped,
            ),
            old(self).spec_status() != Status::Running ==> *final(self) == *old(self),
    {
        proof {
            use_type_invariant(&*self);
        }
        match self.status {
            Status::Running => {
                let mut cells: Vec<Option<Pixel>> = Vec::new();
                std::mem::swap(&mut self.cells, &mut cells);
                cells.push(cell);
                let status = if escaped {
                    Status::Escaped
                } else if cells.len() >= self.cap {
                    Status::Exhausted
                } else {
                    Status::Running
                };
                *self = Trajectory { cap: self.cap, cells, status };
                status
            },
            Status::Escaped => Status::Escaped,
            Status::Exhausted => Status::Exhausted,
        }
    }

    /// The largest number of steps that the trajectory may take.
    #[verifier::when_used_as_spec(spec_cap)]
    pub fn cap(&self) -> (cap: usize)
        ensures
            cap == self.spec_cap(),
    {
        self.cap
    }

    /// How far the trajectory has come.
    #[verifier::when_used_as_spec(spec_status)]
    pub fn status(&self) -> (status: Status)
        ensures
            status == self.spec_status(),
    {
        self.status
    }

    /// The number of steps recorded. For an escaped trajectory this is the
    /// iteration at which it escaped, counted from one.
    pub fn len(&self) -> (len: usize)
        ensures
            len == self@.len(),
            len <= self.spec_cap(),
            self.has_escaped() ==> len >= 1,
    {
        proof {
            use_type_invariant(self);
        }
        self.cells.len()
    }

    /// Whether the trajectory ended by escaping.
    pub fn escaped(&self) -> (escaped: bool)
        ensures
            escaped == self.has_escaped(),
    {
        match self.status {
            Status::Escaped => true,
            _ => false,
        }
    }

    /// The recorded steps, first step first.
    pub fn cells(&self) -> (cells: &Vec<Option<Pixel>>)
        ensures
            cells@ == self@,
    {
        &self.cells
    }
}

} // verus!
