//! Loudness normalisation of the mixed signal.
//!
//! The normaliser measures the power of each frame, keeps the measurements
//! of the last 400 ms in a window, and moves its gain a hundredth of the way
//! toward the gain that the caller's loudness law asks for, never leaving
//! the range between a reduction of 20 dB and the configured ceiling.
//!
//! Powers are mean squares of raw samples; gains are ratios in 65536ths.

use std::collections::VecDeque;
use vstd::prelude::*;

use crate::audio::sample::{scale_truncated, scaled_truncated, UNITY};

verus! {

/// The gain of a reduction by 20 dB, a tenth, rounded up.
pub const FLOOR_GAIN: u32 = 6554;

/// How far the gain must be from one before it is applied: a thousandth.
pub const GAIN_EPSILON: u32 = 65;

/// The gain moves one part in this many toward its target at each step.
pub const SMOOTHING_DIVISOR: u32 = 100;

/// The largest power that a frame can have.
pub const MAX_POWER: u64 = 0x4000_0000;

/// The sum of the squares of `samples`.
pub open spec fn sum_squares(samples: Seq<i16>) -> nat
    decreases samples.len(),
{
    if samples.len() == 0 {
        0
    } else {
        sum_squares(samples.drop_last()) + (samples.last() as int * samples.last() as int) as nat
    }
}

/// The mean of the squares of `samples`, rounded down; zero for no samples.
pub open spec fn mean_square(samples: Seq<i16>) -> nat {
    if samples.len() == 0 {
        0
    } else {
        sum_squares(samples) / samples.len()
    }
}

/// The sum of the measurements in `window`.
pub open spec fn total(window: Seq<u64>) -> nat
    decreases window.len(),
{
    if window.len() == 0 {
        0
    } else {
        total(window.drop_last()) + window.last() as nat
    }
}

/// The mean of the measurements in `window`, rounded down.
pub open spec fn average(window: Seq<u64>) -> nat {
    if window.len() == 0 {
        0
    } else {
        total(window) / window.len()
    }
}

/// The newest `capacity` measurements of `window`.
pub open spec fn newest(window: Seq<u64>, capacity: nat) -> Seq<u64> {
    if window.len() > capacity {
        window.skip(window.len() - capacity)
    } else {
        window
    }
}

/// `desired` limited to the range from the floor to `max_gain`.
pub open spec fn clamp_gain(desired: u32, max_gain: u32) -> u32 {
    if desired < FLOOR_GAIN {
        FLOOR_GAIN
    } else if desired > max_gain {
        max_gain
    } else {
        desired
    }
}

/// `gain` moved a hundredth of the way toward `target`.
pub open spec fn smoothed(gain: u32, target: u32) -> u32 {
    if target >= gain {
        (gain + (target - gain) / (SMOOTHING_DIVISOR as int)) as u32
    } else {
        (gain - (gain - target) / (SMOOTHING_DIVISOR as int)) as u32
    }
}

/// Whether `gain` is far enough from one to be applied.
pub open spec fn gain_applies(gain: u32) -> bool {
    gain > UNITY + GAIN_EPSILON || gain + GAIN_EPSILON < UNITY
}

/// `samples` with `gain` applied: each multiplied by it and saturated,
/// unless the gain is within a thousandth of one.
pub open spec fn with_gain(samples: Seq<i16>, gain: u32) -> Seq<i16> {
    if gain_applies(gain) {
        Seq::new(samples.len(), |i: int| scale_truncated(samples[i], gain))
    } else {
        samples
    }
}

/// How one step over `frame` changes a normaliser, where `desired_gain`
/// says which gain suits a mean power: the power of the frame enters the
/// window, the oldest measurements beyond the capacity leave it, and the
/// gain moves a hundredth of the way toward the limited answer.
pub open spec fn stepped<F: Fn(u64) -> u32>(
    before: VolumeNormalizer,
    after: VolumeNormalizer,
    frame: Seq<i16>,
    desired_gain: F,
) -> bool {
    &&& after.ceiling() == before.ceiling()
    &&& after.capacity() == before.capacity()
    &&& after.window() == newest(
        before.window().push(mean_square(frame) as u64),
        before.capacity(),
    )
    &&& after.window().len() == 0 ==> after.gain() == before.gain()
    &&& after.window().len() > 0 ==> exists|desired: u32|
        #[trigger] desired_gain.ensures((average(after.window()) as u64,), desired) && after.gain()
            == smoothed(before.gain(), clamp_gain(desired, before.ceiling()))
}

/// Every measurement is the power of some frame.
pub open spec fn powers_bounded(window: Seq<u64>) -> bool {
    forall|i: int| 0 <= i < window.len() ==> #[trigger] window[i] <= MAX_POWER
}

/// The sum of squares is at most the greatest square times the length.
pub proof fn lemma_sum_squares_bound(samples: Seq<i16>)
    ensures
        sum_squares(samples) <= samples.len() * MAX_POWER,
    decreases samples.len(),
{
    if samples.len() > 0 {
        lemma_sum_squares_bound(samples.drop_last());
        let s = samples.last() as int;
        assert(0 <= s * s <= 0x4000_0000) by (nonlinear_arith)
            requires
                -0x8000 <= s <= 0x7fff,
        ;
        assert((samples.len() - 1) * MAX_POWER + MAX_POWER == samples.len() * MAX_POWER)
            by (nonlinear_arith);
    }
}

/// A quotient is bounded by the factor that bounds the dividend.
pub proof fn lemma_mean_bound(sum: nat, count: nat, bound: nat)
    requires
        count > 0,
        sum <= count * bound,
    ensures
        sum / count <= bound,
{
    assert(sum / count <= bound) by (nonlinear_arith)
        requires
            count > 0,
            sum <= count * bound,
    ;
}

/// The mean square of the samples of a frame.
pub fn frame_power(samples: &[i16]) -> (power: u64)
    ensures
        power == mean_square(samples@),
        power <= MAX_POWER,
{
    if samples.len() == 0 {
        return 0;
    }
    let mut sum: u128 = 0;
    let mut i: usize = 0;
    while i < samples.len()
        invariant
            i <= samples@.len(),
            sum == sum_squares(samples@.take(i as int)),
            sum <= i * MAX_POWER,
        decreases samples@.len() - i,
    {
        let s: i64 = samples[i] as i64;
        proof {
            assert(samples@.take(i + 1).drop_last() =~= samples@.take(i as int));
            assert(samples@.take(i + 1).last() == samples@[i as int]);
            lemma_sum_squares_bound(samples@.take(i + 1));
            assert(0 <= s * s <= 0x4000_0000) by (nonlinear_arith)
                requires
                    -0x8000 <= s <= 0x7fff,
            ;
            assert(i * MAX_POWER <= 0xffff_ffff_ffff_ffff * 0x4000_0000) by (nonlinear_arith)
                requires
                    0 <= i <= 0xffff_ffff_ffff_ffff,
                    MAX_POWER == 0x4000_0000,
            ;
        }
        sum = sum + (s * s) as u128;
        i += 1;
    }
    proof {
        assert(samples@.take(samples@.len() as int) =~= samples@);
        lemma_mean_bound(sum as nat, samples@.len(), MAX_POWER as nat);
    }
    (sum / (samples.len() as u128)) as u64
}

/// Normalises the loudness of successive frames.
pub struct VolumeNormalizer {
    window: VecDeque<u64>,
    buffer_size: usize,
    current_gain: u32,
    max_gain: u32,
}

impl VolumeNormalizer {
    /// The measurements of the last frames, oldest first.
    pub closed spec fn window(&self) -> Seq<u64> {
        self.window@
    }

    /// How many measurements the window keeps.
    pub closed spec fn capacity(&self) -> nat {
        self.buffer_size as nat
    }

    /// The gain in force.
    pub closed spec fn gain(&self) -> u32 {
        self.current_gain
    }

    /// The greatest gain that may be reached.
    pub closed spec fn ceiling(&self) -> u32 {
        self.max_gain
    }

    /// What holds of every normaliser: the ceiling is not below the floor,
    /// and the window holds at most its capacity of frame powers.
    pub closed spec fn wf(&self) -> bool {
        &&& FLOOR_GAIN <= self.max_gain
        &&& self.window@.len() <= self.buffer_size
        &&& powers_bounded(self.window@)
    }

    /// A normaliser with gain one and an empty window that spans 400 ms of
    /// stereo samples at `sample_rate`. `max_gain` is the ceiling of the gain.
    pub fn new(max_gain: u32, sample_rate: usize) -> (normalizer: Self)
        requires
            FLOOR_GAIN <= max_gain,
            sample_rate * 800 <= usize::MAX,
        ensures
            normalizer.wf(),
            normalizer.gain() == UNITY,
            normalizer.ceiling() == max_gain,
            normalizer.window() == Seq::<u64>::empty(),
            normalizer.capacity() == (sample_rate * 2 * 400) / 1000,
    {
        let buffer_size: usize = (sample_rate * 2 * 400) / 1000;
        VolumeNormalizer {
            window: VecDeque::with_capacity(buffer_size),
            buffer_size,
            current_gain: UNITY,
            max_gain,
        }
    }

    /// The gain in force, in 65536ths.
    pub fn current_gain(&self) -> (gain: u32)
        ensures
            gain == self.gain(),
    {
        self.current_gain
    }

    /// Forgets the measurements and returns the gain to one.
    pub fn reset(&mut self)
        requires
            old(self).wf(),
        ensures
            final(self).wf(),
            final(self).window() == Seq::<u64>::empty(),
            final(self).gain() == UNITY,
            final(self).ceiling() == old(self).ceiling(),
            final(self).capacity() == old(self).capacity(),
    {
        self.window.clear();
        self.current_gain = UNITY;
    }

    /// The mean of the window, rounded down; zero when it is empty.
    pub fn window_power(&self) -> (power: u64)
        requires
            self.wf(),
        ensures
            power == average(self.window()),
            power <= MAX_POWER,
    {
        let n = self.window.len();
        if n == 0 {
            return 0;
        }
        let mut sum: u128 = 0;
        let mut i: usize = 0;
        while i < n
            invariant
                i <= n,
                n == self.window@.len(),
                powers_bounded(self.window@),
                sum == total(self.window@.take(i as int)),
                sum <= i * MAX_POWER,
            decreases n - i,
        {
            proof {
                assert(self.window@.take(i + 1).drop_last() =~= self.window@.take(i as int));
                assert(self.window@.take(i + 1).last() == self.window@[i as int]);
                assert(self.window@[i as int] <= MAX_POWER);
                assert(i * MAX_POWER <= 0xffff_ffff_ffff_ffff * 0x4000_0000) by (nonlinear_arith)
                    requires
                        0 <= i <= 0xffff_ffff_ffff_ffff,
                        MAX_POWER == 0x4000_0000,
                ;
                assert(i * MAX_POWER + MAX_POWER == (i + 1) * MAX_POWER) by (nonlinear_arith);
            }
            sum = sum + self.window[i] as u128;
            i += 1;
        }
        proof {
            assert(self.window@.take(n as int) =~= self.window@);
            lemma_mean_bound(sum as nat, n as nat, MAX_POWER as nat);
        }
        (sum / (n as u128)) as u64
    }

    /// One step of normalisation over a frame.
    ///
    /// The power of the frame enters the window and the oldest measurements
    /// leave it until it holds no more than its capacity. `desired_gain` is
    /// then asked for the gain that suits the mean power of the window; its
    /// answer is limited to the range from the floor to the ceiling, and the
    /// gain moves a hundredth of the way toward it. At last the gain is
    /// applied to the samples, unless it is within a thousandth of one.
    pub fn process<F: Fn(u64) -> u32>(&mut self, samples: &mut Vec<i16>, desired_gain: F)
        requires
            old(self).wf(),
            forall|power: u64| desired_gain.requires((power,)),
        ensures
            final(self).wf(),
            stepped(*old(self), *final(self), old(samples)@, desired_gain),
            final(samples)@ == with_gain(old(samples)@, final(self).gain()),
            FLOOR_GAIN <= old(self).gain() <= old(self).ceiling() ==> FLOOR_GAIN
                <= final(self).gain() <= final(self).ceiling(),
    {
        let power = frame_power(samples.as_slice());
        let ghost pushed = self.window@.push(power);
        self.window.push_back(power);
        proof {
            assert(powers_bounded(pushed)) by {
                assert forall|i: int| 0 <= i < pushed.len() implies #[trigger] pushed[i]
                    <= MAX_POWER by {
                    if i < old(self).window@.len() {
                        assert(pushed[i] == old(self).window@[i]);
                    }
                }
            }
        }
        while self.window.len() > self.buffer_size
            invariant
                self.buffer_size == old(self).buffer_size,
                self.max_gain == old(self).max_gain,
                self.current_gain == old(self).current_gain,
                self.window@.len() <= pushed.len(),
                self.window@ == pushed.skip(pushed.len() - self.window@.len()),
                self.window@.len() >= self.buffer_size || self.window@.len() == pushed.len(),
            decreases self.window@.len(),
        {
            let ghost before = self.window@;
            let _ = self.window.pop_front();
            proof {
                assert(self.window@ =~= pushed.skip(pushed.len() - self.window@.len()));
            }
        }
        proof {
            assert(pushed.skip(0) =~= pushed);
            assert(self.window@ == newest(pushed, self.buffer_size as nat));
            assert(powers_bounded(self.window@)) by {
                let k = pushed.len() - self.window@.len();
                assert forall|i: int| 0 <= i < self.window@.len() implies #[trigger] self.window@[i]
                    <= MAX_POWER by {
                    assert(self.window@[i] == pushed[i + k]);
                }
            }
        }
        if self.window.len() > 0 {
            let mean = self.window_power();
            let desired = desired_gain(mean);
            let target = if desired < FLOOR_GAIN {
                FLOOR_GAIN
            } else if desired > self.max_gain {
                self.max_gain
            } else {
                desired
            };
            if target >= self.current_gain {
                self.current_gain = self.current_gain + (target - self.current_gain)
                    / SMOOTHING_DIVISOR;
            } else {
                self.current_gain = self.current_gain - (self.current_gain - target)
                    / SMOOTHING_DIVISOR;
            }
            proof {
                assert(mean == average(self.window()) as u64);
                assert(desired_gain.ensures((average(self.window()) as u64,), desired));
                assert(self.current_gain == smoothed(
                    old(self).gain(),
                    clamp_gain(desired, old(self).ceiling()),
                ));
            }
        }
        let gain = self.current_gain;
        if gain > UNITY + GAIN_EPSILON || gain + GAIN_EPSILON < UNITY {
            let mut i: usize = 0;
            while i < samples.len()
                invariant
                    i <= samples@.len(),
                    samples@.len() == old(samples)@.len(),
                    forall|k: int| 0 <= k < i ==> samples@[k] == scale_truncated(old(samples)@[k], gain),
                    forall|k: int| i <= k < samples@.len() ==> samples@[k] == old(samples)@[k],
                decreases samples@.len() - i,
            {
                let scaled = scaled_truncated(samples[i], gain);
                samples[i] = scaled;
                i += 1;
            }
            proof {
                assert(samples@ =~= with_gain(old(samples)@, gain));
            }
        }
    }
}

/// A step of normalisation moves the gain toward its target and never past
/// it, so a gain between the floor and the ceiling stays between them: it
/// never exceeds the ceiling and never reduces by more than 20 dB.
pub proof fn lemma_gain_stays_bounded(gain: u32, desired: u32, max_gain: u32)
    requires
        FLOOR_GAIN <= max_gain,
        FLOOR_GAIN <= gain <= max_gain,
    ensures
        FLOOR_GAIN <= smoothed(gain, clamp_gain(desired, max_gain)) <= max_gain,
{
    lemma_gain_approaches(gain, clamp_gain(desired, max_gain));
}

/// The smoothed gain lies between the gain before and the target.
pub proof fn lemma_gain_approaches(gain: u32, target: u32)
    ensures
        target >= gain ==> gain <= smoothed(gain, target) <= target,
        target <= gain ==> target <= smoothed(gain, target) <= gain,
{
}

} // verus!
