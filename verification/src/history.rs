//! A bounded history of telemetry, kept as six aligned series for plotting.
use vstd::prelude::*;
use std::collections::VecDeque;

use crate::protocol::SimulationState;

verus! {

/// Number of samples a plot history keeps (about eight seconds at 60 Hz).
pub const MAX_HISTORY: usize = 500;

/// The part of a telemetry snapshot that the plots show.
#[derive(Clone, Copy, Debug, PartialEq)]
pub struct PlotSample<F> {
    pub time: F,
    pub master_pos: F,
    pub slave_pos: F,
    pub master_vel: F,
    pub slave_vel: F,
    pub error: F,
}

/// The plotted part of a snapshot.
pub open spec fn sample_of<F>(s: SimulationState<F>) -> PlotSample<F> {
    PlotSample {
        time: s.time,
        master_pos: s.master_pos,
        slave_pos: s.slave_pos,
        master_vel: s.master_vel,
        slave_vel: s.slave_vel,
        error: s.error,
    }
}

/// Appends `x` to a window, first dropping its oldest element when the
/// window is already full.
pub open spec fn slide<T>(window: Seq<T>, x: T) -> Seq<T> {
    if window.len() >= MAX_HISTORY {
        window.drop_first().push(x)
    } else {
        window.push(x)
    }
}

/// The window after sliding each of `xs` into it, in order.
pub open spec fn slide_all<T>(window: Seq<T>, xs: Seq<T>) -> Seq<T>
    decreases xs.len(),
{
    if xs.len() == 0 {
        window
    } else {
        slide(slide_all(window, xs.drop_last()), xs.last())
    }
}

/// The last `MAX_HISTORY` elements of `xs` (all of them if there are fewer).
pub open spec fn latest<T>(xs: Seq<T>) -> Seq<T> {
    if xs.len() > MAX_HISTORY {
        xs.skip(xs.len() - MAX_HISTORY)
    } else {
        xs
    }
}

/// Telemetry history: the samples of the most recent snapshots, oldest
/// first, stored as one series per plotted quantity.
pub struct PlotHistory<F> {
    time: VecDeque<F>,
    master_pos: VecDeque<F>,
    slave_pos: VecDeque<F>,
    master_vel: VecDeque<F>,
    slave_vel: VecDeque<F>,
    error: VecDeque<F>,
}

impl<F> View for PlotHistory<F> {
    type V = Seq<PlotSample<F>>;

    /// The samples, oldest first; sample `i` is made of element `i` of each series.
    closed spec fn view(&self) -> Seq<PlotSample<F>> {
        Seq::new(
            self.time@.len(),
            |i: int|
                PlotSample {
                    time: self.time@[i],
                    master_pos: self.master_pos@[i],
                    slave_pos: self.slave_pos@[i],
                    master_vel: self.master_vel@[i],
                    slave_vel: self.slave_vel@[i],
                    error: self.error@[i],
                },
        )
    }
}

impl<F> PlotHistory<F> {
    /// The six series are aligned and hold no more than `MAX_HISTORY` samples.
    pub closed spec fn wf(&self) -> bool {
        &&& self.time@.len() <= MAX_HISTORY
        &&& self.master_pos@.len() == self.time@.len()
        &&& self.slave_pos@.len() == self.time@.len()
        &&& self.master_vel@.len() == self.time@.len()
        &&& self.slave_vel@.len() == self.time@.len()
        &&& self.error@.len() == self.time@.len()
    }

    /// An empty history.
    pub fn new() -> (h: Self)
        ensures
            h.wf(),
            h@ == Seq::<PlotSample<F>>::empty(),
    {
        let h = PlotHistory {
            time: VecDeque::with_capacity(MAX_HISTORY),
            master_pos: VecDeque::with_capacity(MAX_HISTORY),
            slave_pos: VecDeque::with_capacity(MAX_HISTORY),
            master_vel: VecDeque::with_capacity(MAX_HISTORY),
            slave_vel: VecDeque::with_capacity(MAX_HISTORY),
            error: VecDeque::with_capacity(MAX_HISTORY),
        };
        assert(h@ =~= Seq::<PlotSample<F>>::empty());
        h
    }

    /// A well-formed history holds at most `MAX_HISTORY` samples.
    pub proof fn lemma_bounded(&self)
        requires
            self.wf(),
        ensures
            self@.len() <= MAX_HISTORY,
    {
    }

    /// Number of samples held.
    pub fn len(&self) -> (n: usize)
        requires
            self.wf(),
        ensures
            n == self@.len(),
            n <= MAX_HISTORY,
    {
        self.time.len()
    }

    /// The `time` series, oldest first.
    pub fn time_series(&self) -> (r: &VecDeque<F>)
        requires
            self.wf(),
        ensures
            r@ == self@.map_values(|s: PlotSample<F>| s.time),
    {
        assert(self.time@ =~= self@.map_values(|s: PlotSample<F>| s.time));
        &self.time
    }

    /// The `master_pos` series, oldest first.
    pub fn master_pos_series(&self) -> (r: &VecDeque<F>)
        requires
            self.wf(),
        ensures
            r@ == self@.map_values(|s: PlotSample<F>| s.master_pos),
    {
        assert(self.master_pos@ =~= self@.map_values(|s: PlotSample<F>| s.master_pos));
        &self.master_pos
    }

    /// The `slave_pos` series, oldest first.
    pub fn slave_pos_series(&self) -> (r: &VecDeque<F>)
        requires
            self.wf(),
        ensures
            r@ == self@.map_values(|s: PlotSample<F>| s.slave_pos),
    {
        assert(self.slave_pos@ =~= self@.map_values(|s: PlotSample<F>| s.slave_pos));
        &self.slave_pos
    }

    /// The `master_vel` series, oldest first.
    pub fn master_vel_series(&self) -> (r: &VecDeque<F>)
        requires
            self.wf(),
        ensures
            r@ == self@.map_values(|s: PlotSample<F>| s.master_vel),
    {
        assert(self.master_vel@ =~= self@.map_values(|s: PlotSample<F>| s.master_vel));
        &self.master_vel
    }

    /// The `slave_vel` series, oldest first.
    pub fn slave_vel_series(&self) -> (r: &VecDeque<F>)
        requires
            self.wf(),
        ensures
            r@ == self@.map_values(|s: PlotSample<F>| s.slave_vel),
    {
        assert(self.slave_vel@ =~= self@.map_values(|s: PlotSample<F>| s.slave_vel));
        &self.slave_vel
    }

    /// The `error` series, oldest first.
    pub fn error_series(&self) -> (r: &VecDeque<F>)
        requires
            self.wf(),
        ensures
            r@ == self@.map_values(|s: PlotSample<F>| s.error),
    {
        assert(self.error@ =~= self@.map_values(|s: PlotSample<F>| s.error));
        &self.error
    }

}

impl<F: Copy> PlotHistory<F> {
    /// Records the plotted quantities of `state`, dropping the oldest sample
    /// when the history is full.
    pub fn record(&mut self, state: &SimulationState<F>)
        requires
            old(self).wf(),
        ensures
            final(self).wf(),
            final(self)@ == slide(old(self)@, sample_of(*state)),
            final(self)@.len() <= MAX_HISTORY,
            final(self)@.len() > 0,
            final(self)@[final(self)@.len() - 1] == (PlotSample {
                time: state.time,
                master_pos: state.master_pos,
                slave_pos: state.slave_pos,
                master_vel: state.master_vel,
                slave_vel: state.slave_vel,
                error: state.error,
            }),
            final(self)@.drop_last() == (if old(self)@.len() >= MAX_HISTORY {
                old(self)@.drop_first()
            } else {
                old(self)@
            }),
    {
        if self.time.len() >= MAX_HISTORY {
            self.time.pop_front();
            self.master_pos.pop_front();
            self.slave_pos.pop_front();
            self.master_vel.pop_front();
            self.slave_vel.pop_front();
            self.error.pop_front();
        }
        self.time.push_back(state.time);
        self.master_pos.push_back(state.master_pos);
        self.slave_pos.push_back(state.slave_pos);
        self.master_vel.push_back(state.master_vel);
        self.slave_vel.push_back(state.slave_vel);
        self.error.push_back(state.error);
        assert(self@ =~= slide(old(self)@, sample_of(*state)));
    }
}

/// Sliding one more element into a window that holds the latest elements
/// of `xs` gives the latest elements of `xs` extended by it.
pub proof fn lemma_slide_latest<T>(xs: Seq<T>, x: T)
    ensures
        slide(latest(xs), x) == latest(xs.push(x)),
{
    assert(slide(latest(xs), x) =~= latest(xs.push(x)));
}

/// A history keeps exactly the most recent samples: starting from any
/// window that is not over-full, recording the samples `xs` one after
/// another leaves the last `MAX_HISTORY` of the window followed by `xs`.
pub proof fn lemma_history_keeps_latest<T>(window: Seq<T>, xs: Seq<T>)
    requires
        window.len() <= MAX_HISTORY,
    ensures
        slide_all(window, xs) == latest(window + xs),
    decreases xs.len(),
{
    if xs.len() == 0 {
        assert(window + xs =~= window);
    } else {
        lemma_history_keeps_latest(window, xs.drop_last());
        lemma_slide_latest(window + xs.drop_last(), xs.last());
        assert((window + xs.drop_last()).push(xs.last()) =~= window + xs);
    }
}

/// Recording the samples of `a` and then those of `b` is recording `a + b`.
pub proof fn lemma_slide_all_append<T>(window: Seq<T>, a: Seq<T>, b: Seq<T>)
    ensures
        slide_all(slide_all(window, a), b) == slide_all(window, a + b),
    decreases b.len(),
{
    if b.len() == 0 {
        assert(a + b =~= a);
    } else {
        lemma_slide_all_append(window, a, b.drop_last());
        assert((a + b).drop_last() =~= a + b.drop_last());
        assert((a + b).last() == b.last());
    }
}

} // verus!
