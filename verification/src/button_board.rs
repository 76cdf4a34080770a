//! What a button board decides: which edges of its button are presses, what
//! a write to its LED means, and what becomes of a press nobody is
//! listening for.

use vstd::prelude::*;
use crate::input::{after_record, after_release, EdgeLatch, LatchModel};

verus! {

/// The debounce window of a finger-operated button, in milliseconds.
pub const DEBOUNCE_MS: u32 = 50;

/// One edge of the button at `now_ms`, with the level the pin reads after
/// it: a rising edge is a press (counted unless it is bounce), a falling
/// edge a release (which restarts the window so its bounce is not a press).
pub fn button_edge(presses: &mut EdgeLatch, high: bool, now_ms: u32)
    ensures
        high ==> final(presses)@ == after_record(old(presses)@, now_ms, DEBOUNCE_MS),
        !high ==> final(presses)@ == after_release(old(presses)@, now_ms, DEBOUNCE_MS),
{
    if high {
        presses.record(now_ms, DEBOUNCE_MS);
    } else {
        presses.record_release(now_ms, DEBOUNCE_MS);
    }
}

/// What a write to the LED characteristic asks for: a first byte of `0`
/// switches it off, any other first byte on, and an empty write nothing.
pub fn led_level(data: &[u8]) -> (level: Option<bool>)
    ensures
        data@.len() == 0 ==> level is None,
        data@.len() > 0 ==> level == Some(data@[0] != 0),
{
    if data.len() == 0 {
        None
    } else {
        Some(data[0] != 0)
    }
}

/// What a pass of the board's loop does with waiting presses.
#[derive(Debug, Clone, Copy, PartialEq, Eq, Structural)]
pub enum PressOutcome {
    /// Nothing is waiting.
    Idle,
    /// One press is taken and notified.
    Notify,
    /// Nobody is subscribed: every waiting press is thrown away.
    Discarded { dropped: u32 },
}

/// One pass of the board's loop: with a subscriber, exactly one waiting
/// press is taken and notified; without one, the waiting presses are
/// discarded rather than delivered late to whoever connects next.
pub fn pass_presses(presses: &mut EdgeLatch, subscribed: bool) -> (outcome: PressOutcome)
    ensures
        old(presses)@.count == 0 ==> outcome == PressOutcome::Idle && final(presses)@ == old(presses)@,
        old(presses)@.count > 0 && subscribed ==> outcome == PressOutcome::Notify
            && final(presses)@ == (LatchModel { count: (old(presses)@.count - 1) as u32, ..old(presses)@ }),
        old(presses)@.count > 0 && !subscribed ==> outcome == (PressOutcome::Discarded { dropped: old(presses)@.count })
            && final(presses)@ == (LatchModel { count: 0, ..old(presses)@ }),
{
    if presses.pending() == 0 {
        return PressOutcome::Idle;
    }
    if subscribed {
        presses.take_one();
        PressOutcome::Notify
    } else {
        PressOutcome::Discarded { dropped: presses.discard() }
    }
}

/// The debounce of a board that polls its button rather than taking an
/// interrupt, in milliseconds.
pub const POLL_DEBOUNCE_MS: u64 = 50;

/// What a polling button board remembers between passes.
#[derive(Debug, Clone, Copy, PartialEq, Eq, Structural)]
pub struct PollState {
    /// Whether the button read high on the last pass.
    pub was_high: bool,
    /// When the last counted press happened.
    pub last_pressed_ms: u64,
}

/// What one poll of the button amounts to.
#[derive(Debug, Clone, Copy, PartialEq, Eq, Structural)]
pub enum PollOutcome {
    /// No new press.
    Idle,
    /// A press, notified to the subscribed client.
    Notify,
    /// A press, but no client is subscribed to hear it.
    Unheard,
}

/// Milliseconds since `last`, never negative.
pub open spec fn since(now: u64, last: u64) -> int {
    if now >= last { now - last } else { 0 }
}

/// Whether a poll reading `high` at `now` is a new press: a rising edge more
/// than the debounce after the last press.
pub open spec fn is_new_press(state: PollState, high: bool, now: u64) -> bool {
    high && !state.was_high && since(now, state.last_pressed_ms) > POLL_DEBOUNCE_MS
}

impl PollState {
    /// The state at boot: the button was low, and no press yet.
    pub fn new() -> (state: PollState)
        ensures
            state == (PollState { was_high: false, last_pressed_ms: 0 }),
    {
        PollState { was_high: false, last_pressed_ms: 0 }
    }
}

/// One pass of a polling button board: a rising edge more than the
/// debounce after the last press is a press, notified if a client is
/// subscribed; the level is remembered for the next pass.
pub fn poll_button(state: PollState, high: bool, now_ms: u64, subscribed: bool) -> (next: (PollState, PollOutcome))
    ensures
        next.0.was_high == high,
        next.0.last_pressed_ms == if is_new_press(state, high, now_ms) { now_ms } else { state.last_pressed_ms },
        next.1 == if !is_new_press(state, high, now_ms) {
            PollOutcome::Idle
        } else if subscribed {
            PollOutcome::Notify
        } else {
            PollOutcome::Unheard
        },
{
    let rising = high && !state.was_high;
    if rising && now_ms.saturating_sub(state.last_pressed_ms) > POLL_DEBOUNCE_MS {
        let next = PollState { was_high: high, last_pressed_ms: now_ms };
        if subscribed {
            (next, PollOutcome::Notify)
        } else {
            (next, PollOutcome::Unheard)
        }
    } else {
        (PollState { was_high: high, last_pressed_ms: state.last_pressed_ms }, PollOutcome::Idle)
    }
}

} // verus!
