//! One turn of the loop: apply what the poll brought, then say what to draw.
//! Polling, drawing and sleeping are the caller's; the order of the turn is
//! fixed here, so that a frame never misses a trigger polled before it.

use crate::input::{polled_trigger, Input};
use crate::stopwatch::{
    lemma_cycle_of_three, lemma_trigger_steps_once, Stopwatch, StopwatchState, StopwatchView,
};
use crate::wall_clock::{is_utc_text, utc_pretty};
use vstd::prelude::*;

verus! {

/// How long the input source is waited for at each poll: not at all.
pub const POLL_TIMEOUT_MILLIS: u64 = 0;

/// How long the loop sleeps after each frame.
pub const REFRESH_MILLIS: u64 = 20;

/// The two texts of one frame, for two regions side by side.
pub struct Frame {
    pub stopwatch: String,
    pub utc_time: String,
}

/// One turn as contracts see it: the stopwatch `before`, what the poll
/// brought, the stopwatch `after`, and the stopwatch text of the frame. A
/// polled trigger moves the stopwatch on exactly once, anything else leaves it
/// as it was, and the frame shows the stopwatch as it is after the poll.
pub open spec fn turn(
    before: StopwatchView,
    polled: Option<Input>,
    after: StopwatchView,
    shown: Seq<char>,
) -> bool {
    &&& polled_trigger(polled) ==> after.may_follow(before)
    &&& !polled_trigger(polled) ==> after == before
    &&& after.may_show(shown)
}

/// Runs one turn of the loop on what the poll brought, and returns the frame
/// to draw.
pub fn tick(stopwatch: &mut Stopwatch, polled: Option<Input>) -> (frame: Frame)
    ensures
        turn(old(stopwatch)@, polled, final(stopwatch)@, frame.stopwatch@),
        is_utc_text(frame.utc_time@),
{
    let triggered = match polled {
        Some(input) => input.is_trigger(),
        None => false,
    };
    if triggered {
        stopwatch.next_state();
    }
    Frame { stopwatch: stopwatch.get_time(), utc_time: utc_pretty() }
}

/// How many of `polls` brought the trigger.
pub open spec fn triggers_in(polls: Seq<Option<Input>>) -> nat
    decreases polls.len(),
{
    if polls.len() == 0 {
        0
    } else if polled_trigger(polls.last()) {
        triggers_in(polls.drop_last()) + 1
    } else {
        triggers_in(polls.drop_last())
    }
}

/// The stopwatch that turn `k` of a run starts from: `start` for the first
/// turn, and for every other what the turn before it left.
pub open spec fn before_turn(
    start: StopwatchView,
    stopwatches: Seq<StopwatchView>,
    k: int,
) -> StopwatchView {
    if k == 0 {
        start
    } else {
        stopwatches[k - 1]
    }
}

/// A run of the loop from `start`: turn `k` polls `polls[k]`, leaves the
/// stopwatch `stopwatches[k]` and draws the stopwatch text `shown[k]`.
pub open spec fn is_run(
    start: StopwatchView,
    polls: Seq<Option<Input>>,
    stopwatches: Seq<StopwatchView>,
    shown: Seq<Seq<char>>,
) -> bool {
    &&& stopwatches.len() == polls.len()
    &&& shown.len() == polls.len()
    &&& forall|k: int|
        0 <= k < polls.len() ==> turn(
            before_turn(start, stopwatches, k),
            polls[k],
            #[trigger] stopwatches[k],
            shown[k],
        )
}

/// In any run of the loop, the frame of turn `k` shows the stopwatch in the
/// state that the triggers polled in turns `0` to `k`, and no others, have
/// brought it to: each of them has moved it on once, and no later poll has
/// touched it.
pub proof fn lemma_frame_reflects_polls(
    start: StopwatchView,
    polls: Seq<Option<Input>>,
    stopwatches: Seq<StopwatchView>,
    shown: Seq<Seq<char>>,
    k: int,
)
    requires
        is_run(start, polls, stopwatches, shown),
        0 <= k < polls.len(),
    ensures
        stopwatches[k].state() == start.state().after(triggers_in(polls.take(k + 1))),
        start is NotStarted ==> stopwatches[k].state() == StopwatchState::at(
            triggers_in(polls.take(k + 1)),
        ),
        stopwatches[k].may_show(shown[k]),
    decreases k,
{
    lemma_cycle_of_three(triggers_in(polls.take(k + 1)));
    let before = before_turn(start, stopwatches, k);
    assert(turn(before, polls[k], stopwatches[k], shown[k]));
    assert(polls.take(k + 1).drop_last() =~= polls.take(k));
    assert(polls.take(k + 1).last() == polls[k]);
    if k == 0 {
        assert(triggers_in(polls.take(0)) == 0);
    } else {
        lemma_frame_reflects_polls(start, polls, stopwatches, shown, k - 1);
    }
    if polled_trigger(polls[k]) {
        lemma_trigger_steps_once(before, stopwatches[k]);
    }
}

} // verus!
