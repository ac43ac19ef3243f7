//! The stopwatch: three states in a fixed cycle, moved on by one trigger at a
//! time, and the text it shows at any moment.

use crate::elapsed::{
    elapsed_text, format_elapsed, is_elapsed_text, lemma_shown_never_goes_back, lemma_zero_text,
    shown_not_after, zero_text,
};
use std::time::Instant;
use vstd::prelude::*;
use vstd::string::*;

verus! {

/// Where a stopwatch stands in its cycle.
#[derive(Clone, Copy, Debug, PartialEq, Eq, Structural)]
pub enum StopwatchState {
    NotStarted,
    Running,
    Done,
}

impl StopwatchState {
    /// The state one trigger later: `NotStarted`, `Running`, `Done`, and round
    /// again. No state is ever skipped.
    pub open spec fn next(self) -> StopwatchState {
        match self {
            StopwatchState::NotStarted => StopwatchState::Running,
            StopwatchState::Running => StopwatchState::Done,
            StopwatchState::Done => StopwatchState::NotStarted,
        }
    }

    /// The state `n` triggers later.
    pub open spec fn after(self, n: nat) -> StopwatchState
        decreases n,
    {
        if n == 0 {
            self
        } else {
            self.after((n - 1) as nat).next()
        }
    }

    /// The state `steps` places round the cycle from `NotStarted`.
    pub open spec fn at(steps: nat) -> StopwatchState {
        if steps % 3 == 0 {
            StopwatchState::NotStarted
        } else if steps % 3 == 1 {
            StopwatchState::Running
        } else {
            StopwatchState::Done
        }
    }
}

/// A stopwatch. It holds its timing origin only while it runs, and the text
/// frozen at the stop only once it is done.
pub enum Stopwatch {
    NotStarted,
    Running { origin: Instant },
    Done { display: String },
}

/// A stopwatch as contracts see it: the frozen text as a sequence of
/// characters.
pub enum StopwatchView {
    NotStarted,
    Running { origin: Instant },
    Done { display: Seq<char> },
}

impl StopwatchView {
    pub open spec fn state(self) -> StopwatchState {
        match self {
            StopwatchView::NotStarted => StopwatchState::NotStarted,
            StopwatchView::Running { .. } => StopwatchState::Running,
            StopwatchView::Done { .. } => StopwatchState::Done,
        }
    }

    /// The text shown at a moment when `elapsed_ms` milliseconds have passed
    /// since the origin. Only a running stopwatch looks at the clock.
    pub open spec fn shown(self, elapsed_ms: nat) -> Seq<char> {
        match self {
            StopwatchView::NotStarted => zero_text(),
            StopwatchView::Running { .. } => elapsed_text(elapsed_ms),
            StopwatchView::Done { display } => display,
        }
    }

    /// The stopwatch after a trigger at the instant `now`, `elapsed_ms`
    /// milliseconds after the origin. Starting takes `now` as the new origin,
    /// stopping freezes the text of `elapsed_ms`, and resetting drops both.
    pub open spec fn advanced(self, now: Instant, elapsed_ms: nat) -> StopwatchView {
        match self {
            StopwatchView::NotStarted => StopwatchView::Running { origin: now },
            StopwatchView::Running { .. } => StopwatchView::Done {
                display: elapsed_text(elapsed_ms),
            },
            StopwatchView::Done { .. } => StopwatchView::NotStarted,
        }
    }

    /// The text frozen in a stopwatch that is done is the text of some elapsed
    /// time. Every stopwatch made by `Stopwatch::new` and moved by triggers is
    /// well formed; one put together by hand may hold any text.
    pub open spec fn well_formed(self) -> bool {
        self is Done ==> is_elapsed_text(self->display)
    }

    /// `text` is what this stopwatch shows at some reading of the clock.
    pub open spec fn may_show(self, text: Seq<char>) -> bool {
        exists|elapsed_ms: nat| text == #[trigger] self.shown(elapsed_ms)
    }

    /// `self` is what `before` becomes by one trigger, at some reading of the
    /// clock.
    pub open spec fn may_follow(self, before: StopwatchView) -> bool {
        exists|now: Instant, elapsed_ms: nat| self == #[trigger] before.advanced(now, elapsed_ms)
    }
}

impl View for Stopwatch {
    type V = StopwatchView;

    open spec fn view(&self) -> StopwatchView {
        match self {
            Stopwatch::NotStarted => StopwatchView::NotStarted,
            Stopwatch::Running { origin } => StopwatchView::Running { origin: *origin },
            Stopwatch::Done { display } => StopwatchView::Done { display: display@ },
        }
    }
}

impl Stopwatch {
    /// A stopwatch that has not been started.
    pub fn new() -> (stopwatch: Stopwatch)
        ensures
            stopwatch@ == StopwatchView::NotStarted,
    {
        Stopwatch::NotStarted
    }

    /// The state the stopwatch is in.
    pub fn state(&self) -> (state: StopwatchState)
        ensures
            state == self@.state(),
    {
        match self {
            Stopwatch::NotStarted => StopwatchState::NotStarted,
            Stopwatch::Running { .. } => StopwatchState::Running,
            Stopwatch::Done { .. } => StopwatchState::Done,
        }
    }

    /// The text shown when the clock reads `elapsed_ms` milliseconds since the
    /// origin.
    pub fn display_at(&self, elapsed_ms: u128) -> (text: String)
        ensures
            text@ == self@.shown(elapsed_ms as nat),
    {
        match self {
            Stopwatch::NotStarted => {
                proof {
                    lemma_zero_text();
                }
                format_elapsed(0)
            },
            Stopwatch::Running { .. } => format_elapsed(elapsed_ms),
            Stopwatch::Done { display } => display.clone(),
        }
    }

    /// Moves the stopwatch one state on, for a trigger at the instant `now`,
    /// `elapsed_ms` milliseconds after the origin.
    pub fn advance_at(&mut self, now: Instant, elapsed_ms: u128)
        ensures
            final(self)@ == old(self)@.advanced(now, elapsed_ms as nat),
    {
        let state = self.state();
        match state {
            StopwatchState::NotStarted => {
                *self = Stopwatch::Running { origin: now };
            },
            StopwatchState::Running => {
                *self = Stopwatch::Done { display: format_elapsed(elapsed_ms) };
            },
            StopwatchState::Done => {
                *self = Stopwatch::NotStarted;
            },
        }
    }

    /// Reads the monotonic clock: the whole milliseconds since the origin of a
    /// running stopwatch. A stopwatch that does not run has no origin, and the
    /// clock is left alone.
    fn elapsed_millis(&self) -> (elapsed_ms: u128)
        ensures
            !(self@ is Running) ==> elapsed_ms == 0,
    {
        match self {
            Stopwatch::Running { origin } => origin.elapsed().as_millis(),
            _ => 0,
        }
    }

    /// The text the stopwatch shows now. The stopwatch is not changed.
    pub fn get_time(&self) -> (text: String)
        ensures
            self@.may_show(text@),
            self@ is NotStarted ==> text@ == zero_text(),
            self@ is Done ==> text@ == self@->display,
    {
        let elapsed_ms: u128 = self.elapsed_millis();
        self.display_at(elapsed_ms)
    }

    /// Moves the stopwatch one state on, at the present reading of the clock.
    pub fn next_state(&mut self)
        ensures
            final(self)@.may_follow(old(self)@),
            final(self)@.state() == old(self)@.state().next(),
            old(self)@ is Running ==> final(self)@ is Done && old(self)@.may_show(
                final(self)@->display,
            ),
            old(self)@ is Done ==> final(self)@ is NotStarted,
    {
        let elapsed_ms: u128 = self.elapsed_millis();
        let now = Instant::now();
        self.advance_at(now, elapsed_ms);
        assert(old(self)@ is Running ==> self@->display == old(self)@.shown(elapsed_ms as nat));
    }
}

/// After `n` triggers, a stopwatch that had not been started stands `n % 3`
/// places round the cycle.
pub proof fn lemma_cycle_of_three(n: nat)
    ensures
        StopwatchState::NotStarted.after(n) == StopwatchState::at(n),
    decreases n,
{
    if n > 0 {
        lemma_cycle_of_three((n - 1) as nat);
    }
}

/// Three triggers bring any state back to itself, so only `n % 3` of `n`
/// triggers count.
pub proof fn lemma_cycle_repeats(state: StopwatchState, n: nat)
    ensures
        state.after(n) == state.after(n % 3),
    decreases n,
{
    if n >= 3 {
        lemma_cycle_repeats(state, (n - 3) as nat);
        reveal_with_fuel(StopwatchState::after, 4);
        assert(state.after(n) == state.after((n - 3) as nat).next().next().next());
    }
}

/// One trigger moves a stopwatch to the next state of the cycle, whatever the
/// clock reads.
pub proof fn lemma_trigger_steps_once(before: StopwatchView, after: StopwatchView)
    requires
        after.may_follow(before),
    ensures
        after.state() == before.state().next(),
{
}

/// A trigger leaves a well-formed stopwatch, whatever it found.
pub proof fn lemma_advanced_is_well_formed(before: StopwatchView, now: Instant, elapsed_ms: nat)
    ensures
        before.advanced(now, elapsed_ms).well_formed(),
{
}

/// All that a well-formed stopwatch ever shows is the text of some elapsed
/// time.
pub proof fn lemma_shows_elapsed_text(stopwatch: StopwatchView, elapsed_ms: nat)
    requires
        stopwatch.well_formed(),
    ensures
        is_elapsed_text(stopwatch.shown(elapsed_ms)),
{
    lemma_zero_text();
}

/// While a stopwatch runs it shows the text of the elapsed time, and a later
/// reading of the clock never shows an earlier time.
pub proof fn lemma_running_never_goes_back(
    running: StopwatchView,
    earlier_ms: nat,
    later_ms: nat,
)
    requires
        running is Running,
        earlier_ms <= later_ms,
    ensures
        running.shown(earlier_ms) == elapsed_text(earlier_ms),
        running.shown(later_ms) == elapsed_text(later_ms),
        shown_not_after(earlier_ms, later_ms),
{
    lemma_shown_never_goes_back(earlier_ms, later_ms);
}

/// A stopwatch that has not been started shows the zero text, whatever the
/// clock reads.
pub proof fn lemma_not_started_shows_zero(stopwatch: StopwatchView, elapsed_ms: nat)
    requires
        stopwatch is NotStarted,
    ensures
        stopwatch.shown(elapsed_ms) == zero_text(),
{
}

/// A stopwatch stopped `stopped_ms` milliseconds after its origin shows the
/// text of that moment ever after, whatever the clock reads later.
pub proof fn lemma_stopped_text_is_frozen(
    running: StopwatchView,
    now: Instant,
    stopped_ms: nat,
    later_ms: nat,
)
    requires
        running is Running,
    ensures
        running.advanced(now, stopped_ms) is Done,
        running.advanced(now, stopped_ms).shown(later_ms) == elapsed_text(stopped_ms),
        running.advanced(now, stopped_ms).shown(later_ms) == running.shown(stopped_ms),
{
}

} // verus!
