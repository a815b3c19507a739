//! The running minimum and maximum of the microphone samples that the
//! microphone sketch reports after every block of samples.

use vstd::prelude::*;

verus! {

/// Number of samples summarised in one report line.
pub const SAMPLES_PER_REPORT: u32 = 83333;

/// Running extremes of one block of samples. `None` stands for "no sample
/// yet", which the report shows as an infinity.
#[derive(Clone, Copy, Debug, PartialEq, Eq, Structural)]
pub struct SampleStats {
    pub min: Option<u16>,
    pub max: Option<u16>,
}

/// Taking one more sample into account: it becomes the minimum if it is
/// smaller than the minimum so far (or is the first), and the maximum if it
/// is larger than the maximum so far (or is the first).
pub open spec fn stats_step(s: SampleStats, value: u16) -> SampleStats {
    SampleStats {
        min: match s.min {
            Some(m) if m <= value => Some(m),
            _ => Some(value),
        },
        max: match s.max {
            Some(m) if m >= value => Some(m),
            _ => Some(value),
        },
    }
}

/// The statistics after taking `values` into account, in order, from no sample.
pub open spec fn stats_of(values: Seq<u16>) -> SampleStats
    decreases values.len(),
{
    if values.len() == 0 {
        SampleStats { min: None, max: None }
    } else {
        stats_step(stats_of(values.drop_last()), values.last())
    }
}

impl SampleStats {
    /// No sample seen.
    pub fn new() -> (s: SampleStats)
        ensures
            s == stats_of(Seq::<u16>::empty()),
    {
        SampleStats { min: None, max: None }
    }

    /// Takes one sample into account: see [`stats_step`].
    pub fn add(&mut self, value: u16)
        ensures
            *final(self) == stats_step(*old(self), value),
    {
        match self.min {
            Some(m) if m <= value => {},
            _ => {
                self.min = Some(value);
            },
        }
        match self.max {
            Some(m) if m >= value => {},
            _ => {
                self.max = Some(value);
            },
        }
    }
}

/// After a block of samples the minimum is one of its samples and no sample
/// is smaller; likewise the maximum is one of them and no sample is larger.
pub proof fn lemma_extremes(values: Seq<u16>)
    requires
        values.len() > 0,
    ensures
        stats_of(values).min is Some,
        stats_of(values).max is Some,
        values.contains(stats_of(values).min.unwrap()),
        values.contains(stats_of(values).max.unwrap()),
        forall|i: int| 0 <= i < values.len() ==> stats_of(values).min.unwrap() <= #[trigger] values[i],
        forall|i: int| 0 <= i < values.len() ==> stats_of(values).max.unwrap() >= #[trigger] values[i],
    decreases values.len(),
{
    let prev = values.drop_last();
    if prev.len() == 0 {
        assert(values[0] == values.last());
    } else {
        lemma_extremes(prev);
        let pm = stats_of(prev).min.unwrap();
        let px = stats_of(prev).max.unwrap();
        let k = choose|k: int| 0 <= k < prev.len() && prev[k] == pm;
        let j = choose|j: int| 0 <= j < prev.len() && prev[j] == px;
        assert(values[k] == pm);
        assert(values[j] == px);
        assert(values[values.len() - 1] == values.last());
        assert forall|i: int| 0 <= i < values.len() implies stats_of(values).min.unwrap()
            <= #[trigger] values[i] && stats_of(values).max.unwrap() >= values[i] by {
            if i < prev.len() {
                assert(values[i] == prev[i]);
            }
        }
    }
}

} // verus!
