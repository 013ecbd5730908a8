//! One worker of a rendering pass: it takes a fixed number of samples, follows
//! each one step by step, and draws those that escape into channels of its
//! own.
//!
//! The worker decides; the caller computes. The caller asks what is due next,
//! draws a random sample or computes the next value of the orbit accordingly,
//! and reports back. Workers share nothing while they run: their channels are
//! added up when all of them are done.

use vstd::prelude::*;
use crate::channel::recorded_steps;
use crate::compositor::{largest_cap, Compositor};
use crate::grid::Pixel;
use crate::trajectory::{status_after, Status, Trajectory};

verus! {

/// What a worker needs from its caller next.
#[derive(Clone, Copy, Debug, PartialEq, Eq, Structural)]
pub enum Action {
    /// A new sample: draw a point of the viewport and report it begun.
    Sample,
    /// The next value of the current sample's orbit.
    Iterate,
    /// Nothing: every sample of the budget has been followed to its end.
    Finish,
}

/// A worker with its own channels, its sample budget and the trajectory of
/// the sample it is following.
pub struct Worker {
    compositor: Compositor,
    budget: usize,
    started: usize,
    trajectory: Trajectory,
}

impl Worker {
    /// The channels that the worker draws into.
    pub closed spec fn spec_compositor(&self) -> &Compositor {
        &self.compositor
    }

    /// The number of samples that the worker is to take.
    pub closed spec fn spec_budget(&self) -> usize {
        self.budget
    }

    /// The number of samples begun so far.
    pub closed spec fn spec_started(&self) -> usize {
        self.started
    }

    /// The trajectory of the sample begun last.
    pub closed spec fn spec_trajectory(&self) -> &Trajectory {
        &self.trajectory
    }

    /// Whether a sample is under way: begun, and neither escaped nor given up.
    pub open spec fn is_sampling(&self) -> bool {
        self.spec_trajectory().spec_status() == Status::Running
    }

    /// What is due next: the next step of the sample under way, else a new
    /// sample while the budget lasts, else nothing.
    pub open spec fn spec_next(&self) -> Action {
        if self.is_sampling() {
            Action::Iterate
        } else if self.spec_started() < self.spec_budget() {
            Action::Sample
        } else {
            Action::Finish
        }
    }

    /// Whether the parts of the worker belong together: it has begun no more
    /// samples than its budget allows, and the sample under way, if any, may
    /// run for as many steps as the largest cap of any channel. Every worker
    /// starts out so and stays so.
    pub open spec fn is_consistent(&self) -> bool {
        &&& self.spec_started() <= self.spec_budget()
        &&& self.spec_trajectory().well_formed()
        &&& self.is_sampling() ==> self.spec_trajectory().spec_cap() == largest_cap(
            self.spec_compositor()@,
        )
    }

    /// A worker that has nothing left to do has begun exactly as many samples
    /// as it was to take, and has followed each of them to its end.
    pub proof fn finished_worker_has_used_its_budget(&self)
        requires
            self.is_consistent(),
            self.spec_next() == Action::Finish,
        ensures
            self.spec_started() == self.spec_budget(),
            !self.is_sampling(),
    {
    }

    /// A sample that escapes is drawn, with every one of its steps, into each
    /// channel that has the largest cap.
    pub proof fn escaped_sample_reaches_deepest_channel(
        &self,
        before: &Worker,
        cell: Option<Pixel>,
        c: int,
    )
        requires
            before.is_consistent(),
            before.is_sampling(),
            self.has_stepped_from(before, cell, true),
            0 <= c < before.spec_compositor()@.len(),
            before.spec_compositor()@[c].spec_cap() == largest_cap(before.spec_compositor()@),
        ensures
            self.spec_trajectory().has_escaped(),
            recorded_steps(
                self.spec_trajectory(),
                before.spec_compositor()@[c].spec_cap() as nat,
            ) == self.spec_trajectory()@,
            self.spec_compositor()@[c].is_drawn_from(
                &before.spec_compositor()@[c],
                self.spec_trajectory(),
            ),
    {
        assert(self.spec_trajectory()@.take(self.spec_trajectory()@.len() as int)
            =~= self.spec_trajectory()@);
    }

    /// Whether this worker is `before` with a new sample begun: one more
    /// sample counted, and an empty trajectory with room for as many steps as
    /// the largest cap of any channel.
    pub open spec fn has_begun_from(&self, before: &Worker) -> bool {
        &&& self.spec_compositor() == before.spec_compositor()
        &&& self.spec_budget() == before.spec_budget()
        &&& self.spec_started() == before.spec_started() + 1
        &&& self.spec_trajectory()@ == Seq::<Option<Pixel>>::empty()
        &&& self.spec_trajectory().spec_cap() == largest_cap(before.spec_compositor()@)
        &&& self.spec_trajectory().spec_status() == status_after(
            0,
            largest_cap(before.spec_compositor()@) as nat,
            false,
        )
    }

    /// Whether this worker is `before` after one more step of the sample
    /// under way: the step is recorded, and where it escaped the trajectory is
    /// drawn into the channels. Nothing else changes.
    pub open spec fn has_stepped_from(
        &self,
        before: &Worker,
        cell: Option<Pixel>,
        escaped: bool,
    ) -> bool {
        &&& self.spec_budget() == before.spec_budget()
        &&& self.spec_started() == before.spec_started()
        &&& self.spec_trajectory().spec_cap() == before.spec_trajectory().spec_cap()
        &&& self.spec_trajectory()@ == before.spec_trajectory()@.push(cell)
        &&& self.spec_trajectory().spec_status() == status_after(
            before.spec_trajectory()@.len() + 1,
            before.spec_trajectory().spec_cap() as nat,
            escaped,
        )
        &&& self.spec_compositor()@.len() == before.spec_compositor()@.len()
        &&& escaped ==> forall|c: int|
            0 <= c < before.spec_compositor()@.len() ==> (
            #[trigger] self.spec_compositor()@[c]).is_drawn_from(
                &before.spec_compositor()@[c],
                self.spec_trajectory(),
            )
        &&& !escaped ==> self.spec_compositor() == before.spec_compositor()
    }

    /// A worker that draws into `compositor` and is to take `budget` samples.
    pub fn new(compositor: Compositor, budget: usize) -> (worker: Worker)
        ensures
            *worker.spec_compositor() == compositor,
            worker.spec_budget() == budget,
            worker.spec_started() == 0,
            !worker.is_sampling(),
            worker.is_consistent(),
            worker.spec_trajectory()@ == Seq::<Option<Pixel>>::empty(),
    {
        Worker { compositor, budget, started: 0, trajectory: Trajectory::begin(0) }
    }

    /// What is due next.
    #[verifier::when_used_as_spec(spec_next)]
    pub fn next(&self) -> (action: Action)
        ensures
            action == self.spec_next(),
    {
        match self.trajectory.status() {
            Status::Running => Action::Iterate,
            _ => if self.started < self.budget {
                Action::Sample
            } else {
                Action::Finish
            },
        }
    }

    /// Begins a new sample, where one is due. Its trajectory has room for as
    /// many steps as the largest cap of any channel: a sample that has not
    /// escaped by then would be drawn nowhere. Returns whether a sample was
    /// begun; where none is due the worker stays as it is.
    pub fn begin_sample(&mut self) -> (begun: bool)
        ensures
            begun == (old(self).spec_next() == Action::Sample),
            begun ==> final(self).has_begun_from(old(self)),
            !begun ==> *final(self) == *old(self),
            old(self).is_consistent() ==> final(self).is_consistent(),
    {
        match self.next() {
            Action::Sample => {
                self.started = self.started + 1;
                self.trajectory = Trajectory::begin(self.compositor.max_cap());
                true
            },
            _ => false,
        }
    }

    /// Takes the next step of the sample under way: the pixel that the orbit
    /// fell on, if any, and whether it left the escape radius. A sample that
    /// escapes with this step is drawn into the channels; one that runs out
    /// of iterations is dropped. Returns how the sample stands after the step.
    ///
    /// With no sample under way the worker stays as it is.
    pub fn visit(&mut self, cell: Option<Pixel>, escaped: bool) -> (status: Status)
        ensures
            status == final(self).spec_trajectory().spec_status(),
            old(self).is_sampling() ==> final(self).has_stepped_from(old(self), cell, escaped),
            !old(self).is_sampling() ==> *final(self) == *old(self),
            old(self).is_consistent() ==> final(self).is_consistent(),
    {
        match self.trajectory.status() {
            Status::Running => {
                let status = self.trajectory.visit(cell, escaped);
                match status {
                    Status::Escaped => {
                        self.compositor.record(&self.trajectory);
                    },
                    _ => {},
                }
                status
            },
            Status::Escaped => Status::Escaped,
            Status::Exhausted => Status::Exhausted,
        }
    }

    /// The number of samples that the worker is to take.
    #[verifier::when_used_as_spec(spec_budget)]
    pub fn budget(&self) -> (budget: usize)
        ensures
            budget == self.spec_budget(),
    {
        self.budget
    }

    /// The number of samples begun so far.
    #[verifier::when_used_as_spec(spec_started)]
    pub fn started(&self) -> (started: usize)
        ensures
            started == self.spec_started(),
    {
        self.started
    }

    /// The trajectory of the sample begun last.
    #[verifier::when_used_as_spec(spec_trajectory)]
    pub fn trajectory(&self) -> (trajectory: &Trajectory)
        ensures
            trajectory == self.spec_trajectory(),
    {
        &self.trajectory
    }

    /// The channels that the worker draws into.
    #[verifier::when_used_as_spec(spec_compositor)]
    pub fn compositor(&self) -> (compositor: &Compositor)
        ensures
            compositor == self.spec_compositor(),
    {
        &self.compositor
    }

    /// Ends the worker and hands out its channels.
    pub fn finish(self) -> (compositor: Compositor)
        ensures
            compositor == *self.spec_compositor(),
    {
        self.compositor
    }
}

} // verus!
