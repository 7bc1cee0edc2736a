//! A rolling window over the most recent samples of one metric.

use vstd::prelude::*;

verus! {

/// Number of samples a window retains: thirty seconds at one sample per second.
pub const CAPACITY: usize = 30;

/// The contents of a window after `sample` has been appended to `samples`
/// and the oldest entry evicted.
pub open spec fn shifted(samples: Seq<u32>, sample: u32) -> Seq<u32> {
    samples.drop_first().push(sample)
}

/// The contents of a window that started as `samples` after every element of
/// `values` has been pushed, first to last.
pub open spec fn after_pushes(samples: Seq<u32>, values: Seq<u32>) -> Seq<u32>
    decreases values.len(),
{
    if values.len() == 0 {
        samples
    } else {
        shifted(after_pushes(samples, values.drop_last()), values.last())
    }
}

/// The chart points of a window: sample `i` is plotted at time `i - (CAPACITY - 1)`.
pub open spec fn points_of(samples: Seq<u32>) -> Seq<(i32, u32)> {
    Seq::new(samples.len(), |i: int| ((i - (CAPACITY - 1)) as i32, samples[i]))
}

/// The upper end of the value axis for a window whose newest sample is `newest`.
pub open spec fn axis_upper(newest: u32) -> u32 {
    if newest >= 1 {
        newest
    } else {
        1
    }
}

/// Fixed-capacity history of one metric, oldest sample first.
#[derive(Debug)]
pub struct TelemetryWindow {
    samples: Vec<u32>,
}

impl View for TelemetryWindow {
    type V = Seq<u32>;

    closed spec fn view(&self) -> Seq<u32> {
        self.samples@
    }
}

impl TelemetryWindow {
    /// A window always holds exactly `CAPACITY` samples.
    #[verifier::type_invariant]
    spec fn holds_capacity(&self) -> bool {
        self.samples@.len() == CAPACITY
    }

    /// A window in which every sample is zero.
    pub fn new() -> (w: TelemetryWindow)
        ensures
            w@.len() == CAPACITY,
            w@ == Seq::new(CAPACITY as nat, |i: int| 0u32),
    {
        let mut samples: Vec<u32> = Vec::with_capacity(CAPACITY);
        let mut i: usize = 0;
        while i < CAPACITY
            invariant
                i <= CAPACITY,
                samples@.len() == i,
                forall|j: int| 0 <= j < i ==> samples@[j] == 0u32,
            decreases CAPACITY - i,
        {
            samples.push(0);
            i += 1;
        }
        assert(samples@ =~= Seq::new(CAPACITY as nat, |i: int| 0u32));
        TelemetryWindow { samples }
    }

    /// Appends `sample` as the newest reading and evicts the oldest.
    pub fn push(&mut self, sample: u32)
        ensures
            old(self)@.len() == CAPACITY,
            final(self)@.len() == CAPACITY,
            final(self)@ == shifted(old(self)@, sample),
        no_unwind
    {
        proof {
            use_type_invariant(&*self);
        }
        let mut i: usize = 0;
        while i + 1 < CAPACITY
            invariant
                i + 1 <= CAPACITY,
                self.samples@.len() == CAPACITY,
                forall|j: int| 0 <= j < i ==> self.samples@[j] == old(self).samples@[j + 1],
                forall|j: int| i <= j < CAPACITY ==> self.samples@[j] == old(self).samples@[j],
            decreases CAPACITY - i,
        {
            let next = self.samples[i + 1];
            self.samples[i] = next;
            i += 1;
        }
        self.samples[CAPACITY - 1] = sample;
        assert(self.samples@ =~= shifted(old(self).samples@, sample));
    }

    /// The newest sample.
    pub fn current(&self) -> (newest: u32)
        ensures
            self@.len() == CAPACITY,
            newest == self@[CAPACITY - 1],
    {
        proof {
            use_type_invariant(self);
        }
        self.samples[CAPACITY - 1]
    }

    /// The sample at position `index`, counted from the oldest.
    pub fn sample(&self, index: usize) -> (value: u32)
        requires
            index < CAPACITY,
        ensures
            self@.len() == CAPACITY,
            value == self@[index as int],
    {
        proof {
            use_type_invariant(self);
        }
        self.samples[index]
    }

    /// All retained samples, oldest first.
    pub fn samples(&self) -> (all: &Vec<u32>)
        ensures
            all@ == self@,
            all@.len() == CAPACITY,
    {
        proof {
            use_type_invariant(self);
        }
        &self.samples
    }

    /// The window as `(time, value)` pairs: the oldest sample at time
    /// `-(CAPACITY - 1)`, the newest at time zero.
    pub fn as_points(&self) -> (points: Vec<(i32, u32)>)
        ensures
            self@.len() == CAPACITY,
            points@.len() == CAPACITY,
            points@ == points_of(self@),
    {
        proof {
            use_type_invariant(self);
        }
        let mut points: Vec<(i32, u32)> = Vec::with_capacity(CAPACITY);
        let mut i: usize = 0;
        let mut time: i32 = 1 - (CAPACITY as i32);
        while i < CAPACITY
            invariant
                i <= CAPACITY,
                self.samples@.len() == CAPACITY,
                time == i - (CAPACITY - 1),
                points@.len() == i,
                forall|j: int| 0 <= j < i ==> points@[j] == points_of(self.samples@)[j],
            decreases CAPACITY - i,
        {
            points.push((time, self.samples[i]));
            i += 1;
            time += 1;
        }
        assert(points@ =~= points_of(self.samples@));
        points
    }

    /// Lower and upper end of the value axis: zero, and the newest sample
    /// raised to at least one so that the axis never collapses.
    pub fn axis_bounds(&self) -> (bounds: (u32, u32))
        ensures
            self@.len() == CAPACITY,
            bounds.0 == 0,
            bounds.1 == axis_upper(self@[CAPACITY - 1]),
    {
        let newest = self.current();
        if newest >= 1 {
            (0, newest)
        } else {
            (0, 1)
        }
    }
}

/// Lower and upper end of the time axis, in seconds before now.
pub fn x_axis_bounds() -> (bounds: (i32, i32))
    ensures
        bounds.0 == -(CAPACITY as int),
        bounds.1 == 0,
{
    (0 - (CAPACITY as i32), 0)
}

/// Pushing never changes the number of samples held.
pub proof fn lemma_pushes_keep_length(samples: Seq<u32>, values: Seq<u32>)
    requires
        samples.len() == CAPACITY,
    ensures
        after_pushes(samples, values).len() == CAPACITY,
    decreases values.len(),
{
    if values.len() > 0 {
        lemma_pushes_keep_length(samples, values.drop_last());
    }
}

/// After any run of pushes the window holds the last `CAPACITY` entries of
/// the old contents followed by the pushed values.
pub proof fn lemma_pushes_keep_latest(samples: Seq<u32>, values: Seq<u32>)
    requires
        samples.len() == CAPACITY,
    ensures
        after_pushes(samples, values) == (samples + values).subrange(
            values.len() as int,
            values.len() + CAPACITY,
        ),
    decreases values.len(),
{
    let all = samples + values;
    if values.len() == 0 {
        assert(all.subrange(0, CAPACITY as int) =~= samples);
    } else {
        let earlier = values.drop_last();
        lemma_pushes_keep_latest(samples, earlier);
        let before = (samples + earlier).subrange(earlier.len() as int, earlier.len() + CAPACITY);
        assert(shifted(before, values.last()) =~= all.subrange(
            values.len() as int,
            values.len() + CAPACITY,
        ));
    }
}

/// First in, first out: once at least `CAPACITY` values have been pushed, the
/// newest slot holds the value pushed last and the oldest slot the value
/// pushed `CAPACITY - 1` pushes before it; the window is exactly the tail of
/// what was pushed.
pub proof fn lemma_fifo_order(samples: Seq<u32>, values: Seq<u32>)
    requires
        samples.len() == CAPACITY,
        values.len() >= CAPACITY,
    ensures
        after_pushes(samples, values).len() == CAPACITY,
        after_pushes(samples, values)[CAPACITY - 1] == values[values.len() - 1],
        after_pushes(samples, values)[0] == values[values.len() - CAPACITY],
        after_pushes(samples, values) == values.subrange(
            values.len() - CAPACITY,
            values.len() as int,
        ),
{
    lemma_pushes_keep_latest(samples, values);
    assert((samples + values).subrange(values.len() as int, values.len() + CAPACITY)
        =~= values.subrange(values.len() - CAPACITY, values.len() as int));
}

/// The value axis never collapses: its upper end is at least one, and is the
/// newest sample whenever that is at least one.
pub proof fn lemma_axis_upper_floor(newest: u32)
    ensures
        axis_upper(newest) >= 1,
        newest >= 1 ==> axis_upper(newest) == newest,
        newest == 0 ==> axis_upper(newest) == 1,
{
}

/// Every chart point carries its sample at the time of its position: there
/// are `CAPACITY` points, at times `-(CAPACITY - 1)` up to zero in steps of one.
pub proof fn lemma_points_shape(samples: Seq<u32>)
    requires
        samples.len() == CAPACITY,
    ensures
        points_of(samples).len() == CAPACITY,
        forall|i: int|
            0 <= i < CAPACITY ==> (#[trigger] points_of(samples)[i]).0 == i - (CAPACITY - 1)
                && points_of(samples)[i].1 == samples[i],
        points_of(samples)[0].0 == -(CAPACITY - 1),
        points_of(samples)[CAPACITY - 1].0 == 0,
{
}

} // verus!
