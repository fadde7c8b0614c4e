//! Activity detector: reduces each window to an amplitude average and turns
//! the averages into an activity level with hysteresis.
//!
//! A loud window resets a countdown; every other window lowers it by one.
//! While the countdown is positive the level `true` is reported once per
//! window. The window that lowers the countdown from one to zero reports
//! `false` instead, once, and further silence reports nothing. The countdown
//! has no floor: it keeps falling below zero for as long as silence lasts.

use crate::config::DetectorConfig;
use vstd::prelude::*;

verus! {

/// Magnitude of one sample.
pub open spec fn amplitude(sample: i16) -> int {
    if sample < 0 {
        -(sample as int)
    } else {
        sample as int
    }
}

/// Sum of the magnitudes of all samples of a window.
pub open spec fn amplitude_sum(window: Seq<i16>) -> int
    decreases window.len(),
{
    if window.len() == 0 {
        0
    } else {
        amplitude_sum(window.drop_last()) + amplitude(window.last())
    }
}

/// Average amplitude of a window: the amplitude sum divided by the window
/// size, rounded down.
pub open spec fn window_average(window: Seq<i16>, window_size: int) -> int {
    amplitude_sum(window) / window_size
}

/// Mathematical state of the detector.
pub struct DetectorModel {
    pub config: DetectorConfig,
    /// Windows left before the level drops; unbounded below.
    pub countdown: int,
}

impl DetectorModel {
    /// The countdown never exceeds the value a loud window resets it to.
    pub open spec fn valid(self) -> bool {
        self.config.valid() && self.countdown <= self.config.hysteresis_windows
    }

    /// The level is active while the countdown is positive.
    pub open spec fn is_active(self) -> bool {
        self.countdown > 0
    }

    /// Whether a window with this average counts as loud.
    pub open spec fn is_loud(self, average: int) -> bool {
        average > self.config.active_threshold
    }

    /// State after a window with the given average.
    pub open spec fn step(self, average: int) -> DetectorModel {
        DetectorModel {
            config: self.config,
            countdown: if self.is_loud(average) {
                self.config.hysteresis_windows as int
            } else {
                self.countdown - 1
            },
        }
    }

    /// Event reported for a window with the given average.
    pub open spec fn event(self, average: int) -> Option<bool> {
        if !self.is_loud(average) && self.countdown == 1 {
            Some(false)
        } else if self.step(average).countdown > 0 {
            Some(true)
        } else {
            None
        }
    }

    /// State after a sequence of windows given by their averages.
    pub open spec fn run(self, averages: Seq<int>) -> DetectorModel
        decreases averages.len(),
    {
        if averages.len() == 0 {
            self
        } else {
            self.run(averages.drop_last()).step(averages.last())
        }
    }
}

/// Hysteresis state machine fed with capture windows.
pub struct ActivityDetector {
    config: DetectorConfig,
    /// The countdown, held at the smallest `i64` once it has fallen that far.
    countdown: i64,
    /// The countdown without that limit.
    exact: Ghost<int>,
}

impl View for ActivityDetector {
    type V = DetectorModel;

    closed spec fn view(&self) -> DetectorModel {
        DetectorModel { config: self.config, countdown: self.exact@ }
    }
}

impl ActivityDetector {
    /// The stored countdown stands for the exact one, and the model is valid.
    pub closed spec fn wf(&self) -> bool {
        &&& self@.valid()
        &&& self.countdown == if self.exact@ < i64::MIN {
            i64::MIN as int
        } else {
            self.exact@
        }
    }

    /// A well-formed detector has a valid model.
    pub proof fn lemma_wf_valid(&self)
        requires
            self.wf(),
        ensures
            self@.valid(),
    {
    }

    /// A detector at rest: inactive, with the countdown at zero. The window
    /// size must be positive.
    pub fn new(config: DetectorConfig) -> (detector: Option<ActivityDetector>)
        ensures
            detector.is_some() <==> config.valid(),
            detector matches Some(d) ==> d.wf() && d@ == (DetectorModel { config, countdown: 0 }),
    {
        if config.window_size == 0 {
            None
        } else {
            Some(ActivityDetector { config, countdown: 0, exact: Ghost(0int) })
        }
    }

    /// The configuration the detector was built with.
    pub fn config(&self) -> (config: DetectorConfig)
        ensures
            config == self@.config,
    {
        self.config
    }

    /// Whether the level is active.
    pub fn is_active(&self) -> (active: bool)
        requires
            self.wf(),
        ensures
            active == self@.is_active(),
    {
        self.countdown > 0
    }

    /// The countdown, or the smallest `i64` if it has fallen below that.
    pub fn countdown(&self) -> (countdown: i64)
        requires
            self.wf(),
        ensures
            countdown == if self@.countdown < i64::MIN {
                i64::MIN as int
            } else {
                self@.countdown
            },
    {
        self.countdown
    }

    /// Average amplitude of `window`, with the configured window size as
    /// divisor whatever the length of `window`. The sum and the quotient
    /// are held in a type wide enough for any window.
    pub fn average(&self, window: &[i16]) -> (average: u128)
        requires
            self.wf(),
        ensures
            average == window_average(window@, self@.config.window_size as int),
    {
        let mut sum: u128 = 0;
        let mut i: usize = 0;
        while i < window.len()
            invariant
                i <= window.len(),
                sum == amplitude_sum(window@.take(i as int)),
                sum <= 0x8000 * i,
            decreases window.len() - i,
        {
            assert(window@.take(i + 1).drop_last() =~= window@.take(i as int));
            let sample = window[i];
            let magnitude: u128 = if sample < 0 {
                (-(sample as i32)) as u128
            } else {
                sample as u128
            };
            sum = sum + magnitude;
            i += 1;
        }
        assert(window@.take(i as int) =~= window@);
        sum / (self.config.window_size as u128)
    }

    /// Advances the hysteresis by one window whose average is given and
    /// returns the event to report, if any.
    pub fn step(&mut self, average: u128) -> (event: Option<bool>)
        requires
            old(self).wf(),
        ensures
            final(self).wf(),
            final(self)@ == old(self)@.step(average as int),
            event == old(self)@.event(average as int),
    {
        let mut event: Option<bool> = None;
        let threshold = self.config.active_threshold;
        if threshold < 0 || average > threshold as u128 {
            self.countdown = self.config.hysteresis_windows as i64;
            self.exact = Ghost(self.config.hysteresis_windows as int);
        } else {
            if self.countdown == 1 {
                event = Some(false);
            }
            if self.countdown > i64::MIN {
                self.countdown = self.countdown - 1;
            }
            self.exact = Ghost(self.exact@ - 1);
        }
        if self.countdown > 0 {
            event = Some(true);
        }
        event
    }

    /// Takes one completed window: computes its average and advances the
    /// hysteresis with it.
    pub fn process(&mut self, window: &[i16]) -> (event: Option<bool>)
        requires
            old(self).wf(),
        ensures
            final(self).wf(),
            final(self)@ == old(self)@.step(
                window_average(window@, old(self)@.config.window_size as int),
            ),
            event == old(self)@.event(
                window_average(window@, old(self)@.config.window_size as int),
            ),
    {
        let average = self.average(window);
        self.step(average)
    }
}

/// A window keeps a valid detector state valid.
pub proof fn lemma_step_keeps_valid(state: DetectorModel, average: int)
    requires
        state.valid(),
    ensures
        state.step(average).valid(),
{
}

/// The event of a window tells the level after it: `true` exactly when the
/// level is active afterwards, `false` exactly when the window ended an
/// active stretch, and nothing exactly when the level was and stays inactive.
pub proof fn lemma_event_reports_level(state: DetectorModel, average: int)
    requires
        state.valid(),
    ensures
        state.event(average) == Some(true) <==> state.step(average).is_active(),
        state.event(average) == Some(false) <==> state.is_active() && !state.step(
            average,
        ).is_active(),
        state.event(average).is_none() <==> !state.is_active() && !state.step(average).is_active(),
{
}

/// With a hysteresis of at least one window, a loud window reports `true`
/// at once and sets the countdown to the hysteresis count, whatever the
/// countdown was before.
pub proof fn lemma_loud_window_resets(state: DetectorModel, average: int)
    requires
        state.config.hysteresis_windows >= 1,
        state.is_loud(average),
    ensures
        state.event(average) == Some(true),
        state.step(average).countdown == state.config.hysteresis_windows,
{
}

/// With a hysteresis of at least one window, the event of a window is
/// `true` when the window is loud or the countdown is above one, `false`
/// when the window is quiet and the countdown is one, and nothing when the
/// window is quiet and the countdown is zero or below.
pub proof fn lemma_event_by_cases(state: DetectorModel, average: int)
    requires
        state.config.hysteresis_windows >= 1,
    ensures
        state.event(average) == Some(true) <==> state.is_loud(average) || state.countdown > 1,
        state.event(average) == Some(false) <==> !state.is_loud(average) && state.countdown == 1,
        state.event(average).is_none() <==> !state.is_loud(average) && state.countdown <= 0,
        state.step(average).countdown > 0 <==> state.event(average) == Some(true),
{
}

/// The amplitude sum of a window is at most 32768 per sample, and exactly
/// that when every sample has the lowest value.
pub proof fn lemma_amplitude_sum_bounds(window: Seq<i16>)
    ensures
        0 <= amplitude_sum(window) <= 0x8000 * window.len(),
        (forall|i: int| 0 <= i < window.len() ==> #[trigger] window[i] == i16::MIN)
            ==> amplitude_sum(window) == 0x8000 * window.len(),
    decreases window.len(),
{
    if window.len() > 0 {
        let head = window.drop_last();
        lemma_amplitude_sum_bounds(head);
        if forall|i: int| 0 <= i < window.len() ==> #[trigger] window[i] == i16::MIN {
            assert forall|i: int| 0 <= i < head.len() implies #[trigger] head[i] == i16::MIN by {
                assert(head[i] == window[i]);
            }
            assert(window.last() == window[window.len() - 1]);
        }
    }
}

/// A full window of the lowest sample value has the average 32768, which
/// is above every threshold: the window is loud.
pub proof fn lemma_full_scale_window_is_loud(state: DetectorModel, window: Seq<i16>)
    requires
        state.config.valid(),
        window.len() == state.config.window_size,
        forall|i: int| 0 <= i < window.len() ==> #[trigger] window[i] == i16::MIN,
    ensures
        window_average(window, state.config.window_size as int) == 0x8000,
        state.is_loud(window_average(window, state.config.window_size as int)),
{
    lemma_amplitude_sum_bounds(window);
    let n = state.config.window_size as int;
    assert((0x8000 * n) / n == 0x8000) by (nonlinear_arith)
        requires
            n > 0,
    ;
}

/// Quiet windows lower the countdown by one each, however far below zero
/// that takes it: the countdown has no floor.
pub proof fn lemma_countdown_after_quiet(state: DetectorModel, quiet: Seq<int>)
    requires
        forall|i: int| 0 <= i < quiet.len() ==> !state.is_loud(#[trigger] quiet[i]),
    ensures
        state.run(quiet).countdown == state.countdown - quiet.len(),
        state.run(quiet).config == state.config,
    decreases quiet.len(),
{
    if quiet.len() > 0 {
        let head = quiet.drop_last();
        assert forall|i: int| 0 <= i < head.len() implies !state.is_loud(#[trigger] head[i]) by {
            assert(head[i] == quiet[i]);
        }
        lemma_countdown_after_quiet(state, head);
    }
}

/// After any number of quiet windows, one more quiet window reports
/// `false` if it is the one that uses up the countdown, `true` if the
/// countdown is still positive after it, and nothing otherwise: an active
/// stretch ends with exactly one `false`.
pub proof fn lemma_event_after_quiet(state: DetectorModel, quiet: Seq<int>, average: int)
    requires
        forall|i: int| 0 <= i < quiet.len() ==> !state.is_loud(#[trigger] quiet[i]),
        !state.is_loud(average),
    ensures
        state.run(quiet).event(average) == if state.countdown - quiet.len() == 1 {
            Some(false)
        } else if state.countdown - quiet.len() > 1 {
            Some(true)
        } else {
            None::<bool>
        },
{
    lemma_countdown_after_quiet(state, quiet);
}

} // verus!
