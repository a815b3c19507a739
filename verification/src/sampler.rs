//! Microphone sampling for the spectrum analyser: the ADC interrupt averages
//! every four samples and fills one of two 256-value buffers while the main
//! loop analyses the other one.
//!
//! The filtered values are kept as integers: each one is the sum of its four
//! samples, that is four times their average, which the analysis scales back.

use vstd::prelude::*;

verus! {

/// Number of ADC samples that are averaged into one filtered value.
pub const AVERAGING_FACTOR: u32 = 4;

/// Number of filtered values in one analysis frame (the FFT size).
pub const FFT_POINTS: usize = 256;

#[verifier::external_type_specification]
#[verifier::external_body]
#[verifier::reject_recursive_types(T)]
pub struct ExFixedVec<T, const N: usize>(heapless::Vec<T, N>);

/// The values a 256-slot `heapless::Vec` of filtered values holds, in order.
pub uninterp spec fn buffer_contents(v: heapless::Vec<u32, 256>) -> Seq<u32>;

/// `heapless::Vec::new`: an empty vector.
///
/// Trusted: the constructor sets the length to 0.
#[verifier::external_body]
fn buffer_new() -> (v: heapless::Vec<u32, 256>)
    ensures
        buffer_contents(v) == Seq::<u32>::empty(),
{
    heapless::Vec::new()
}

/// `heapless::Vec::len` (through its slice): the number of values held,
/// never more than the capacity.
///
/// Trusted: the length is the stored count, which `push` keeps at most `N`.
#[verifier::external_body]
fn buffer_len(v: &heapless::Vec<u32, 256>) -> (n: usize)
    ensures
        n == buffer_contents(*v).len(),
        n <= 256,
{
    v.len()
}

/// `heapless::Vec::capacity`: the const parameter `N`.
///
/// Trusted: the method returns `N`.
#[verifier::external_body]
fn buffer_capacity(v: &heapless::Vec<u32, 256>) -> (n: usize)
    ensures
        n == 256,
{
    v.capacity()
}

/// `heapless::Vec::push`: appends `x` when there is room and returns `Ok`;
/// otherwise leaves the vector unchanged and hands `x` back in `Err`.
///
/// Trusted: the source pushes exactly when the length is below `N`, and
/// cannot panic.
#[verifier::external_body]
fn buffer_push(v: &mut heapless::Vec<u32, 256>, x: u32) -> (r: Result<(), u32>)
    ensures
        r == (if buffer_contents(*old(v)).len() < 256 {
            Ok::<(), u32>(())
        } else {
            Err::<(), u32>(x)
        }),
        buffer_contents(*final(v)) == (if buffer_contents(*old(v)).len() < 256 {
            buffer_contents(*old(v)).push(x)
        } else {
            buffer_contents(*old(v))
        }),
{
    v.push(x)
}

/// `heapless::Vec::clear`: removes all values.
///
/// Trusted: the source truncates to length 0.
#[verifier::external_body]
fn buffer_clear(v: &mut heapless::Vec<u32, 256>)
    ensures
        buffer_contents(*final(v)) == Seq::<u32>::empty(),
{
    v.clear()
}

/// The values of a `heapless::Vec`, copied out through `as_slice`.
///
/// Trusted: `as_slice` views exactly the values held, in order.
#[verifier::external_body]
fn buffer_to_vec(v: &heapless::Vec<u32, 256>) -> (out: Vec<u32>)
    ensures
        out@ == buffer_contents(*v),
{
    v.as_slice().to_vec()
}

/// The state of the sampler as mathematical values.
pub struct SamplerState {
    /// The buffer the interrupt fills.
    pub sampling: Seq<u32>,
    /// The buffer the main loop analyses.
    pub processing: Seq<u32>,
    /// Sum of the samples of the value being averaged.
    pub sum: int,
    /// Number of samples in that sum.
    pub count: int,
}

/// The sampler before the first sample: both buffers empty, nothing summed.
pub open spec fn initial_state() -> SamplerState {
    SamplerState { sampling: Seq::empty(), processing: Seq::empty(), sum: 0, count: 0 }
}

/// One ADC sample arriving. The sample is added to the running sum; on the
/// fourth sample the sum becomes one filtered value: it is appended to the
/// sampling buffer if that has room; if the sampling buffer is full and the
/// processing buffer empty, the two buffers trade places instead (and this
/// value is dropped); if both are full the value is dropped. Then the sum
/// restarts from zero.
pub open spec fn sample_step(s: SamplerState, sample: u16) -> SamplerState {
    let sum = s.sum + sample;
    let count = s.count + 1;
    if count == AVERAGING_FACTOR {
        if s.sampling.len() == FFT_POINTS {
            if s.processing.len() == 0 {
                SamplerState { sampling: s.processing, processing: s.sampling, sum: 0, count: 0 }
            } else {
                SamplerState { sum: 0, count: 0, ..s }
            }
        } else {
            SamplerState { sampling: s.sampling.push(sum as u32), sum: 0, count: 0, ..s }
        }
    } else {
        SamplerState { sum, count, ..s }
    }
}

/// The states the sampler can be in.
pub open spec fn state_valid(s: SamplerState) -> bool {
    &&& s.sampling.len() <= FFT_POINTS
    &&& s.processing.len() <= FFT_POINTS
    &&& 0 <= s.count < AVERAGING_FACTOR
    &&& 0 <= s.sum <= s.count * 65535
}

/// Double-buffered, averaging sample store shared by the ADC interrupt and
/// the main loop.
pub struct Sampler {
    sampling: heapless::Vec<u32, 256>,
    processing: heapless::Vec<u32, 256>,
    sum: u32,
    count: u32,
}

impl Sampler {
    #[verifier::type_invariant]
    spec fn valid(self) -> bool {
        state_valid(self.state())
    }

    /// The sampler's state as mathematical values.
    pub closed spec fn state(self) -> SamplerState {
        SamplerState {
            sampling: buffer_contents(self.sampling),
            processing: buffer_contents(self.processing),
            sum: self.sum as int,
            count: self.count as int,
        }
    }

    /// A sampler with both buffers empty.
    pub fn new() -> (s: Sampler)
        ensures
            s.state() == initial_state(),
    {
        Sampler { sampling: buffer_new(), processing: buffer_new(), sum: 0, count: 0 }
    }

    /// Takes one ADC sample: see [`sample_step`].
    pub fn on_sample(&mut self, sample: u16)
        ensures
            final(self).state() == sample_step(old(self).state(), sample),
    {
        proof {
            use_type_invariant(&*self);
        }
        let sum = self.sum + sample as u32;
        let count = self.count + 1;
        if count == AVERAGING_FACTOR {
            if buffer_len(&self.sampling) == buffer_capacity(&self.sampling) {
                if buffer_len(&self.processing) == 0 {
                    std::mem::swap(&mut self.sampling, &mut self.processing);
                }
            } else {
                let mut sampling = buffer_new();
                std::mem::swap(&mut sampling, &mut self.sampling);
                let _ = buffer_push(&mut sampling, sum);
                self.sampling = sampling;
            }
            self.sum = 0;
            self.count = 0;
        } else {
            self.count = count;
            self.sum = sum;
        }
    }

    /// Whether the processing buffer holds a whole frame to analyse.
    pub fn frame_ready(&self) -> (ready: bool)
        ensures
            ready == (self.state().processing.len() == FFT_POINTS),
    {
        proof {
            use_type_invariant(self);
        }
        buffer_len(&self.processing) == buffer_capacity(&self.processing)
    }

    /// The filtered values of the processing buffer, oldest first.
    pub fn frame(&self) -> (values: Vec<u32>)
        ensures
            values@ == self.state().processing,
    {
        buffer_to_vec(&self.processing)
    }

    /// Empties the processing buffer once the frame has been analysed, so the
    /// interrupt can hand over the next one.
    pub fn release_frame(&mut self)
        ensures
            final(self).state() == (SamplerState { processing: Seq::empty(), ..old(self).state() }),
    {
        proof {
            use_type_invariant(&*self);
        }
        let mut processing = buffer_new();
        std::mem::swap(&mut processing, &mut self.processing);
        buffer_clear(&mut processing);
        self.processing = processing;
    }
}

/// Feeding the samples `samples`, in order, to a sampler in state `s`.
pub open spec fn sample_run(s: SamplerState, samples: Seq<u16>) -> SamplerState
    decreases samples.len(),
{
    if samples.len() == 0 {
        s
    } else {
        sample_step(sample_run(s, samples.drop_last()), samples.last())
    }
}

/// Sum of the four samples that make filtered value `i`.
pub open spec fn quad_sum(samples: Seq<u16>, i: int) -> int {
    samples[4 * i] + samples[4 * i + 1] + samples[4 * i + 2] + samples[4 * i + 3]
}

/// The filtered values of `samples`: one per complete group of four.
pub open spec fn quad_sums(samples: Seq<u16>) -> Seq<u32> {
    Seq::new((samples.len() / 4) as nat, |i: int| quad_sum(samples, i) as u32)
}

/// Sum of the samples after the last complete group of four.
pub open spec fn tail_sum(samples: Seq<u16>) -> int
    decreases samples.len(),
{
    if samples.len() % 4 == 0 {
        0
    } else {
        tail_sum(samples.drop_last()) + samples.last()
    }
}

/// Every state the sampler reaches from a valid state is valid: neither
/// buffer ever holds more than 256 values, and the running sum covers fewer
/// than four samples.
pub proof fn lemma_step_valid(s: SamplerState, sample: u16)
    requires
        state_valid(s),
    ensures
        state_valid(sample_step(s, sample)),
{
}

/// A frame reaches the main loop only whole and only when the main loop is
/// done with the previous one: whenever a sample changes the processing
/// buffer, that buffer was empty and now holds the 256 values of the
/// sampling buffer, in the order they were filtered, and the sampling
/// buffer starts over empty.
pub proof fn lemma_handover(s: SamplerState, sample: u16)
    requires
        state_valid(s),
        sample_step(s, sample).processing != s.processing,
    ensures
        s.processing.len() == 0,
        s.sampling.len() == FFT_POINTS,
        sample_step(s, sample).processing == s.sampling,
        sample_step(s, sample).sampling == Seq::<u32>::empty(),
{
}

/// From a state between two groups, as long as the sampling buffer has
/// room, the interrupt averages the samples in groups of four: the sampling
/// buffer gains the sum of each complete group, in order, the processing
/// buffer is left alone, and the running sum holds the samples of the
/// incomplete group.
pub proof fn lemma_filling_from(s: SamplerState, samples: Seq<u16>)
    requires
        state_valid(s),
        s.count == 0,
        s.sum == 0,
        samples.len() <= AVERAGING_FACTOR * (FFT_POINTS - s.sampling.len()),
    ensures
        sample_run(s, samples) == (SamplerState {
            sampling: s.sampling + quad_sums(samples),
            processing: s.processing,
            sum: tail_sum(samples),
            count: (samples.len() % 4) as int,
        }),
        tail_sum(samples) <= (samples.len() % 4) * 65535,
    decreases samples.len(),
{
    if samples.len() == 0 {
        assert(quad_sums(samples) =~= Seq::<u32>::empty());
        assert(s.sampling + quad_sums(samples) =~= s.sampling);
    } else {
        let prev = samples.drop_last();
        lemma_filling_from(s, prev);
        let p = sample_run(s, prev);
        let x = samples.last();
        assert(quad_sums(prev).len() == prev.len() / 4);
        if samples.len() % 4 == 0 {
            assert(prev.len() % 4 == 3);
            assert(s.sampling.len() + quad_sums(prev).len() < FFT_POINTS);
            assert(s.sampling + quad_sums(prev).push((tail_sum(prev) + x) as u32) =~= (s.sampling
                + quad_sums(prev)).push((tail_sum(prev) + x) as u32));
            let i = (prev.len() / 4) as int;
            let d1 = prev.drop_last();
            let d2 = d1.drop_last();
            let d3 = d2.drop_last();
            assert(tail_sum(prev) == tail_sum(d1) + prev.last());
            assert(tail_sum(d1) == tail_sum(d2) + d1.last());
            assert(tail_sum(d2) == tail_sum(d3) + d2.last());
            assert(tail_sum(d3) == 0);
            assert(samples[4 * i] == d2.last());
            assert(samples[4 * i + 1] == d1.last());
            assert(samples[4 * i + 2] == prev.last());
            assert(samples[4 * i + 3] == x);
            assert(quad_sums(samples) =~= quad_sums(prev).push((tail_sum(prev) + x) as u32)) by {
                assert forall|j: int| 0 <= j < quad_sums(prev).len() implies #[trigger] quad_sums(
                    samples,
                )[j] == quad_sums(prev)[j] by {
                    assert(samples[4 * j] == prev[4 * j]);
                    assert(samples[4 * j + 1] == prev[4 * j + 1]);
                    assert(samples[4 * j + 2] == prev[4 * j + 2]);
                    assert(samples[4 * j + 3] == prev[4 * j + 3]);
                }
            }
        } else {
            assert(quad_sums(samples) =~= quad_sums(prev)) by {
                assert forall|j: int| 0 <= j < quad_sums(prev).len() implies #[trigger] quad_sums(
                    samples,
                )[j] == quad_sums(prev)[j] by {
                    assert(samples[4 * j] == prev[4 * j]);
                    assert(samples[4 * j + 1] == prev[4 * j + 1]);
                    assert(samples[4 * j + 2] == prev[4 * j + 2]);
                    assert(samples[4 * j + 3] == prev[4 * j + 3]);
                }
            }
        }
        let r = sample_run(s, samples);
        assert(r == sample_step(p, x));
        assert(r.sampling == s.sampling + quad_sums(samples));
    }
}

/// From the start, as long as the sampling buffer has room, the interrupt
/// averages the samples in groups of four: the sampling buffer holds the
/// sum of each complete group, in order, and the running sum holds the
/// samples of the incomplete group.
pub proof fn lemma_filling(samples: Seq<u16>)
    requires
        samples.len() <= AVERAGING_FACTOR * FFT_POINTS,
    ensures
        sample_run(initial_state(), samples) == (SamplerState {
            sampling: quad_sums(samples),
            processing: Seq::empty(),
            sum: tail_sum(samples),
            count: (samples.len() % 4) as int,
        }),
{
    lemma_filling_from(initial_state(), samples);
    assert(Seq::<u32>::empty() + quad_sums(samples) =~= quad_sums(samples));
}

/// When the main loop has emptied the processing buffer and the sampling
/// buffer holds `L` values between two groups, the buffers trade places at
/// exactly sample `4 * (256 - L) + 4`: after the `4 * (256 - L)` samples
/// that fill the sampling buffer, the next complete group finds it full and
/// hands it over. Until then the processing buffer stays empty; then it
/// holds the `L` old values followed by the sums of the filling groups, 256
/// in all, and the sampling buffer and the running sum start over.
pub proof fn lemma_handover_timing(s: SamplerState, samples: Seq<u16>)
    requires
        state_valid(s),
        s.count == 0,
        s.sum == 0,
        s.processing.len() == 0,
        samples.len() == AVERAGING_FACTOR * (FFT_POINTS - s.sampling.len()) + AVERAGING_FACTOR,
    ensures
        forall|k: int|
            0 <= k < samples.len() ==> (#[trigger] sample_run(s, samples.take(k))).processing
                == Seq::<u32>::empty(),
        sample_run(s, samples) == (SamplerState {
            sampling: Seq::empty(),
            processing: s.sampling + quad_sums(samples.take(samples.len() - 4)),
            sum: 0,
            count: 0,
        }),
        sample_run(s, samples).processing.len() == FFT_POINTS,
{
    let m = samples.len() - 4;
    let fill = samples.take(m);
    lemma_filling_from(s, fill);
    let r0 = sample_run(s, fill);
    assert(quad_sums(fill).len() == m / 4);
    assert(r0.sampling.len() == FFT_POINTS);
    assert(samples.take(m + 1).drop_last() =~= fill);
    assert(samples.take(m + 2).drop_last() =~= samples.take(m + 1));
    assert(samples.take(m + 3).drop_last() =~= samples.take(m + 2));
    assert(samples.take(m + 4).drop_last() =~= samples.take(m + 3));
    assert(samples.take(m + 4) =~= samples);
    let r1 = sample_run(s, samples.take(m + 1));
    let r2 = sample_run(s, samples.take(m + 2));
    let r3 = sample_run(s, samples.take(m + 3));
    assert(r1 == sample_step(r0, samples.take(m + 1).last()));
    assert(r2 == sample_step(r1, samples.take(m + 2).last()));
    assert(r3 == sample_step(r2, samples.take(m + 3).last()));
    assert(r1.count == 1 && r1.sampling == r0.sampling && r1.processing == r0.processing);
    assert(r2.count == 2 && r2.sampling == r0.sampling && r2.processing == r0.processing);
    assert(r3.count == 3 && r3.sampling == r0.sampling && r3.processing == r0.processing);
    assert(sample_run(s, samples) == sample_step(r3, samples.last()));
    assert forall|k: int| 0 <= k < samples.len() implies (#[trigger] sample_run(
        s,
        samples.take(k),
    )).processing == Seq::<u32>::empty() by {
        if k <= m {
            let pre = samples.take(k);
            lemma_filling_from(s, pre);
        } else if k == m + 1 {
        } else if k == m + 2 {
        } else {
            assert(k == m + 3);
        }
    }
}

/// While the main loop still holds a frame and the sampling buffer is full,
/// every filtered value is dropped: whatever samples arrive, neither buffer
/// changes, so the next frame is exactly the 256 values that were waiting,
/// without a gap papered over.
pub proof fn lemma_dropped_while_both_full(s: SamplerState, samples: Seq<u16>)
    requires
        state_valid(s),
        s.sampling.len() == FFT_POINTS,
        s.processing.len() > 0,
    ensures
        sample_run(s, samples).sampling == s.sampling,
        sample_run(s, samples).processing == s.processing,
        state_valid(sample_run(s, samples)),
    decreases samples.len(),
{
    if samples.len() > 0 {
        lemma_dropped_while_both_full(s, samples.drop_last());
        lemma_step_valid(sample_run(s, samples.drop_last()), samples.last());
    }
}

} // verus!
