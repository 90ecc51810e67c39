//! A self-tuning scalar parameter.
//!
//! A [`Fluctuator`] rides a sine wave around its center. Each update anneals
//! the amplitude of the wave by the reward it is given and lets the center
//! drift toward the side of the wave that the reward favoured.
use vstd::prelude::*;
use crate::fixed::{lemma_product_sign, Fixed, SCALE};
use crate::wave::{lemma_sine_of_phase_bounds, sine, sine_of_phase};

verus! {

/// A closed interval of fixed-point numbers, from `start` to `end`.
#[derive(Clone, Copy, Debug, PartialEq, Eq, Structural)]
pub struct Interval {
    pub start: Fixed,
    pub end: Fixed,
}

impl Interval {
    /// `value` brought into the interval: capped at `end`, then raised to
    /// `start`.
    pub open spec fn clamped(&self, value: Fixed) -> Fixed {
        let capped = if value.raw < self.end.raw {
            value
        } else {
            self.end
        };
        if capped.raw > self.start.raw {
            capped
        } else {
            self.start
        }
    }

    /// Brings `value` into the interval.
    pub fn clamp(&self, value: Fixed) -> (r: Fixed)
        ensures
            r == self.clamped(value),
            self.start.raw <= self.end.raw ==> self.start.raw <= r.raw <= self.end.raw,
    {
        let capped = if value.raw < self.end.raw {
            value
        } else {
            self.end
        };
        if capped.raw > self.start.raw {
            capped
        } else {
            self.start
        }
    }
}

/// A parameter that oscillates around `center` and adapts under reward.
#[derive(Clone, Copy, Debug, PartialEq, Eq, Structural)]
pub struct Fluctuator {
    /// The current best estimate of the parameter.
    pub center: Fixed,
    /// The range that the center is meant to stay in. It is configuration
    /// only: no operation consults it.
    pub range: Interval,
    /// The range that the period is drawn from.
    pub range_period: Interval,
    /// The range that the amplitude is kept in.
    pub range_amplitude: Interval,
    /// The length of one oscillation.
    pub period: Fixed,
    /// The magnitude of the oscillation.
    pub amplitude: Fixed,
    /// The time elapsed since the period was last drawn.
    pub time: Fixed,
    /// How fast the amplitude shrinks under reward.
    pub convergence_rate: Fixed,
    /// How fast the center drifts under reward.
    pub learning_rate: Fixed,
}

impl Fluctuator {
    /// The configuration is sound and the oscillation state lies within it:
    /// the period is positive and inside its range, the phase has not run
    /// past the period, and the amplitude is between zero and its upper
    /// bound.
    pub open spec fn valid(&self) -> bool {
        &&& 0 < self.range_period.start.raw <= self.period.raw <= self.range_period.end.raw
        &&& self.time.raw <= self.period.raw
        &&& 0 <= self.range_amplitude.start.raw <= self.range_amplitude.end.raw
        &&& 0 <= self.amplitude.raw <= self.range_amplitude.end.raw
    }

    /// A new parameter at `center`: value range `[-16, 16]`, period range
    /// `[3, 12]`, amplitude range `[0.001, 10]`, both rates `0.1`, no
    /// oscillation yet, and the period drawn at the lower bound of its
    /// range.
    pub open spec fn initial(center: Fixed) -> Fluctuator {
        Fluctuator {
            center,
            range: Interval {
                start: Fixed { raw: -16_000_000_000_000_000i64 },
                end: Fixed { raw: 16_000_000_000_000_000 },
            },
            range_period: Interval {
                start: Fixed { raw: 3_000_000_000_000_000 },
                end: Fixed { raw: 12_000_000_000_000_000 },
            },
            range_amplitude: Interval {
                start: Fixed { raw: 1_000_000_000_000 },
                end: Fixed { raw: 10_000_000_000_000_000 },
            },
            period: Fixed { raw: 3_000_000_000_000_000 },
            amplitude: Fixed { raw: 0 },
            time: Fixed { raw: 0 },
            convergence_rate: Fixed { raw: 100_000_000_000_000 },
            learning_rate: Fixed { raw: 100_000_000_000_000 },
        }
    }

    /// The parameter after a fresh period has been drawn: the period is the
    /// lower bound of its range and the phase starts over.
    pub open spec fn resampled(&self) -> Fluctuator {
        Fluctuator { period: self.range_period.start, time: Fixed { raw: 0 }, ..*self }
    }

    /// The height of the wave at the current phase, between minus one and
    /// one.
    pub open spec fn wave(&self) -> Fixed {
        Fixed { raw: sine_of_phase(self.time.raw as int, self.period.raw as int) as i64 }
    }

    /// How far the oscillation currently carries the parameter from its
    /// center: `amplitude * wave`.
    pub open spec fn displacement(&self) -> Fixed {
        self.amplitude.product(self.wave())
    }

    /// The instantaneous value: `center + amplitude * wave`.
    pub open spec fn value(&self) -> Fixed {
        self.center.sum(self.displacement())
    }

    /// The amplitude after annealing by `reward`:
    /// `amplitude - convergence_rate * amplitude_max * reward`, brought back
    /// into the amplitude range.
    pub open spec fn annealed(&self, reward: Fixed) -> Fixed {
        self.range_amplitude.clamped(
            self.amplitude.difference(
                self.convergence_rate.product(self.range_amplitude.end).product(reward),
            ),
        )
    }

    /// The perturbation that an update with `reward` applies: the annealed
    /// amplitude times the wave at the phase before time advances.
    pub open spec fn perturbation(&self, reward: Fixed) -> Fixed {
        self.annealed(reward).product(self.wave())
    }

    /// Whether advancing the phase by `dt` runs past the period.
    pub open spec fn overruns(&self, dt: Fixed) -> bool {
        self.time.raw + dt.raw > self.period.raw
    }

    /// The parameter after one update with time step `dt` and `reward`.
    pub open spec fn stepped(&self, dt: Fixed, reward: Fixed) -> Fluctuator {
        let moved = Fluctuator {
            amplitude: self.annealed(reward),
            center: self.center.sum(
                self.learning_rate.product(self.perturbation(reward)).product(reward),
            ),
            ..*self
        };
        if self.overruns(dt) {
            moved.resampled()
        } else {
            Fluctuator { time: self.time.sum(dt), ..moved }
        }
    }

    /// The parameter after a run of updates, given as pairs of a time step
    /// and a reward, applied in order.
    pub open spec fn after(&self, steps: Seq<(Fixed, Fixed)>) -> Fluctuator
        decreases steps.len(),
    {
        if steps.len() == 0 {
            *self
        } else {
            self.after(steps.drop_last()).stepped(steps.last().0, steps.last().1)
        }
    }

    /// Creates a parameter at `center` with no oscillation yet: the amplitude
    /// is zero until the first update anneals it into its range.
    pub fn new(center: Fixed) -> (flux: Self)
        ensures
            flux == Fluctuator::initial(center),
            flux.valid(),
            flux.value() == center,
    {
        let flux = Self { center, ..Default::default() };
        proof {
            lemma_still_parameter_reads_center(flux);
        }
        flux
    }

    /// Tells whether the parameter is `valid`.
    pub fn is_valid(&self) -> (ok: bool)
        ensures
            ok == self.valid(),
    {
        0 < self.range_period.start.raw && self.range_period.start.raw <= self.period.raw
            && self.period.raw <= self.range_period.end.raw && self.time.raw <= self.period.raw
            && 0 <= self.range_amplitude.start.raw && self.range_amplitude.start.raw
            <= self.range_amplitude.end.raw && 0 <= self.amplitude.raw && self.amplitude.raw
            <= self.range_amplitude.end.raw
    }

    /// The instantaneous value of the parameter, `center + amplitude *
    /// sin(2 pi time / period)`. Reading it changes nothing.
    pub fn get(&self) -> (value: Fixed)
        requires
            self.valid(),
        ensures
            value == self.value(),
    {
        let wave = sine(self.time, self.period);
        self.center.saturating_add(self.amplitude.saturating_mul(wave))
    }

    /// Draws a fresh period and restarts the phase. The draw is fixed: it
    /// always picks the lower bound of the period range.
    fn randomize_period(&mut self)
        ensures
            *final(self) == old(self).resampled(),
    {
        self.period = self.range_period.start;
        self.time = Fixed { raw: 0 };
    }

    /// Advances the parameter by one time step under `reward` and returns
    /// the perturbation that was applied.
    ///
    /// The amplitude is annealed first; the perturbation is the annealed
    /// amplitude times the wave at the phase before the step; the center
    /// drifts by `learning_rate * perturbation * reward`; then the phase
    /// advances by `dt`, and a fresh period is drawn if it ran past the
    /// current one.
    pub fn update(&mut self, dt: Fixed, reward: Fixed) -> (d: Fixed)
        requires
            old(self).valid(),
        ensures
            *final(self) == old(self).stepped(dt, reward),
            d == old(self).perturbation(reward),
            final(self).valid(),
            final(self).range_amplitude.start.raw <= final(self).amplitude.raw
                <= final(self).range_amplitude.end.raw,
            final(self).time.raw <= final(self).period.raw,
            old(self).overruns(dt) ==> final(self).time.raw == 0 && final(self).period
                == old(self).range_period.start,
            !old(self).overruns(dt) ==> final(self).time == old(self).time.sum(dt) && final(self).period == old(self).period,
            old(self).time.raw >= 0 && dt.raw >= 0 ==> final(self).time.raw >= 0,
            -final(self).amplitude.raw <= d.raw <= final(self).amplitude.raw,
    {
        let shrink = self.convergence_rate.saturating_mul(self.range_amplitude.end).saturating_mul(
            reward,
        );
        self.amplitude = self.range_amplitude.clamp(self.amplitude.saturating_sub(shrink));

        let wave = sine(self.time, self.period);
        let d = self.amplitude.saturating_mul(wave);
        proof {
            lemma_scaled_by_fraction(self.amplitude.raw as int, wave.raw as int);
        }
        self.center = self.center.saturating_add(
            self.learning_rate.saturating_mul(d).saturating_mul(reward),
        );

        let advanced: i128 = self.time.raw as i128 + dt.raw as i128;
        if advanced > self.period.raw as i128 {
            self.randomize_period();
        } else {
            self.time = self.time.saturating_add(dt);
        }
        d
    }
}

/// Scaling a non-negative number by a factor between minus one and one does
/// not increase its magnitude.
proof fn lemma_scaled_by_fraction(a: int, w: int)
    requires
        0 <= a <= i64::MAX,
        -SCALE <= w <= SCALE,
    ensures
        -a <= (Fixed { raw: a as i64 }).product(Fixed { raw: w as i64 }).raw <= a,
{
    let s = SCALE as int;
    if w >= 0 {
        assert(0 <= a * w && (a * w) / s <= a) by (nonlinear_arith)
            requires
                0 <= a,
                0 <= w <= s,
                s == 1_000_000_000_000_000,
        ;
    } else {
        assert(a * w <= 0 && 0 <= (-(a * w)) / s <= a) by (nonlinear_arith)
            requires
                0 <= a,
                -s <= w < 0,
                s == 1_000_000_000_000_000,
        ;
    }
}

/// One update keeps a valid parameter valid, whatever the time step and the
/// reward. Afterwards the amplitude lies within its range and the phase has
/// not run past the period: a fresh period is drawn, and the phase
/// restarted, exactly when the old phase plus the time step exceeds the old
/// period. A phase that was not negative does not become so by a time step
/// that is not negative.
pub proof fn lemma_step_keeps_bounds(f: Fluctuator, dt: Fixed, reward: Fixed)
    requires
        f.valid(),
    ensures
        f.stepped(dt, reward).valid(),
        f.range_amplitude.start.raw <= f.stepped(dt, reward).amplitude.raw
            <= f.range_amplitude.end.raw,
        f.stepped(dt, reward).time.raw <= f.stepped(dt, reward).period.raw,
        f.time.raw + dt.raw > f.period.raw ==> f.stepped(dt, reward).time.raw == 0 && f.stepped(
            dt,
            reward,
        ).period == f.range_period.start,
        f.time.raw + dt.raw <= f.period.raw ==> f.stepped(dt, reward).time == f.time.sum(dt)
            && f.stepped(dt, reward).period == f.period,
        f.time.raw >= 0 && dt.raw >= 0 ==> f.stepped(dt, reward).time.raw >= 0,
        f.stepped(dt, reward).range_amplitude == f.range_amplitude,
        f.stepped(dt, reward).range_period == f.range_period,
{
}

/// Reward steers the search. With a convergence rate that is not negative,
/// a reward that is not negative never widens the oscillation beyond the
/// larger of its old amplitude and the lower bound, and a reward that is not
/// positive never narrows it. With a learning rate that is not negative, the
/// center does not fall when reward and perturbation agree in sign, and does
/// not rise when they differ.
pub proof fn lemma_reward_steers(f: Fluctuator, dt: Fixed, reward: Fixed)
    requires
        f.valid(),
    ensures
        f.convergence_rate.raw >= 0 && reward.raw >= 0 ==> f.stepped(dt, reward).amplitude.raw
            <= f.amplitude.raw || f.stepped(dt, reward).amplitude == f.range_amplitude.start,
        f.convergence_rate.raw >= 0 && reward.raw <= 0 ==> f.stepped(dt, reward).amplitude.raw
            >= f.amplitude.raw,
        f.learning_rate.raw >= 0 && ((reward.raw >= 0 && f.perturbation(reward).raw >= 0) || (
        reward.raw <= 0 && f.perturbation(reward).raw <= 0)) ==> f.stepped(dt, reward).center.raw
            >= f.center.raw,
        f.learning_rate.raw >= 0 && ((reward.raw >= 0 && f.perturbation(reward).raw <= 0) || (
        reward.raw <= 0 && f.perturbation(reward).raw >= 0)) ==> f.stepped(dt, reward).center.raw
            <= f.center.raw,
{
    let rate = f.convergence_rate.product(f.range_amplitude.end);
    lemma_product_sign(f.convergence_rate, f.range_amplitude.end);
    lemma_product_sign(rate, reward);
    let pull = f.learning_rate.product(f.perturbation(reward));
    lemma_product_sign(f.learning_rate, f.perturbation(reward));
    lemma_product_sign(pull, reward);
}

/// However long a run of updates and whatever its rewards, the parameter
/// stays valid, and once it has been updated at all its amplitude lies
/// within the amplitude range and its phase within the period.
pub proof fn lemma_run_keeps_bounds(f: Fluctuator, steps: Seq<(Fixed, Fixed)>)
    requires
        f.valid(),
    ensures
        f.after(steps).valid(),
        f.after(steps).range_amplitude == f.range_amplitude,
        f.after(steps).range_period == f.range_period,
        f.after(steps).time.raw <= f.after(steps).period.raw,
        steps.len() > 0 ==> f.range_amplitude.start.raw <= f.after(steps).amplitude.raw
            <= f.range_amplitude.end.raw,
    decreases steps.len(),
{
    if steps.len() > 0 {
        lemma_run_keeps_bounds(f, steps.drop_last());
        lemma_step_keeps_bounds(f.after(steps.drop_last()), steps.last().0, steps.last().1);
    }
}

/// Two parameters created at the same center and put through the same run
/// of updates pass through the same states: after every step of the run
/// they agree in center, amplitude, period and time, they read the same
/// value, and a further update returns the same perturbation from both.
pub proof fn lemma_runs_agree(a: Fluctuator, b: Fluctuator, center: Fixed, steps: Seq<(Fixed, Fixed)>)
    requires
        a == Fluctuator::initial(center),
        b == Fluctuator::initial(center),
    ensures
        forall|k: int|
            0 <= k <= steps.len() ==> a.after(#[trigger] steps.take(k)) == b.after(steps.take(k)),
        forall|k: int|
            0 <= k <= steps.len() ==> a.after(#[trigger] steps.take(k)).value() == b.after(
                steps.take(k),
            ).value(),
        forall|k: int, reward: Fixed|
            0 <= k <= steps.len() ==> #[trigger] a.after(steps.take(k)).perturbation(reward)
                == b.after(steps.take(k)).perturbation(reward),
{
}

/// A parameter that is not displaced reads as its center. That is so when
/// its amplitude is zero, whatever its phase, and at the start of a period,
/// whatever its amplitude.
pub proof fn lemma_still_parameter_reads_center(f: Fluctuator)
    ensures
        f.displacement().raw == 0 ==> f.value() == f.center,
        f.amplitude.raw == 0 ==> f.displacement().raw == 0,
        f.time.raw == 0 && f.period.raw > 0 ==> f.displacement().raw == 0,
{
    assert(0 * f.wave().raw == 0);
    if f.time.raw == 0 && f.period.raw > 0 {
        lemma_sine_of_phase_bounds(0, f.period.raw as int);
        assert(f.amplitude.raw * 0 == 0);
    }
}

impl From<Fixed> for Fluctuator {
    /// A new parameter at the center `value`.
    fn from(value: Fixed) -> (flux: Self) {
        Self::new(value)
    }
}

impl vstd::std_specs::convert::FromSpecImpl<Fixed> for Fluctuator {
    open spec fn obeys_from_spec() -> bool {
        true
    }

    open spec fn from_spec(value: Fixed) -> Self {
        Fluctuator::initial(value)
    }
}

impl Default for Fluctuator {
    /// The default parameter: centered at zero, with the value range
    /// `[-16, 16]`, the period range `[3, 12]`, the amplitude range
    /// `[0.001, 10]`, both rates `0.1`, and the period drawn at the lower
    /// bound of its range.
    fn default() -> (flux: Self)
        ensures
            flux == Fluctuator::initial(Fixed { raw: 0 }),
            flux.valid(),
    {
        let mut flux = Self {
            center: Fixed { raw: 0 },
            range: Interval {
                start: Fixed { raw: -16_000_000_000_000_000 },
                end: Fixed { raw: 16_000_000_000_000_000 },
            },
            range_period: Interval {
                start: Fixed { raw: 3_000_000_000_000_000 },
                end: Fixed { raw: 12_000_000_000_000_000 },
            },
            range_amplitude: Interval {
                start: Fixed { raw: 1_000_000_000_000 },
                end: Fixed { raw: 10_000_000_000_000_000 },
            },
            period: Fixed { raw: 0 },
            amplitude: Fixed { raw: 0 },
            time: Fixed { raw: 0 },
            convergence_rate: Fixed { raw: 100_000_000_000_000 },
            learning_rate: Fixed { raw: 100_000_000_000_000 },
        };
        flux.randomize_period();
        flux
    }
}

} // verus!
