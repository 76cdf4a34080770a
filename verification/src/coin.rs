//! What a burst of coin-acceptor pulses is, in time, and what a coin board
//! does with the pulses and commands it receives.
//!
//! Every coin board feeds its pulse line to an [`EdgeLatch`] with these
//! constants, so no two boards can disagree about where one coin ends and
//! the next begins.

use vstd::prelude::*;
use crate::input::{elapsed, EdgeLatch, LatchModel, after_record};
use crate::proto::{Command, Descriptor, Event, Role, PROTOCOL_VERSION};

verus! {

/// Shortest gap between two edges that can be two genuine pulses; anything
/// faster is contact bounce or noise from the acceptor's solenoid.
pub const PULSE_DEBOUNCE_MS: u32 = 8;

/// Quiet time that marks the end of one coin's burst.
pub const BURST_GAP_MS: u32 = 300;

/// Longest gap between two pulses of one burst, from the acceptor's datasheet.
pub const INTRA_BURST_MS: u32 = 100;

/// Shortest time between two coins' bursts: the datasheet's recognition time.
pub const RECOGNITION_MS: u32 = 600;

/// The timing constants separate what they must: the debounce cannot swallow
/// a real pulse, a burst's own pulses never look like its end, and two coins
/// never look like one burst.
pub proof fn law_burst_timing_separates_coins()
    ensures
        PULSE_DEBOUNCE_MS < INTRA_BURST_MS,
        INTRA_BURST_MS < BURST_GAP_MS,
        BURST_GAP_MS < RECOGNITION_MS,
{
}

/// What a coin board says it is: one input (the pulse line), no outputs.
pub open spec fn coin_board_spec() -> Descriptor {
    Descriptor { protocol: PROTOCOL_VERSION, role: Role::Coin, inputs: 1, outputs: 0 }
}

/// What a coin board says it is.
pub fn coin_board() -> (descriptor: Descriptor)
    ensures
        descriptor == coin_board_spec(),
{
    Descriptor { protocol: PROTOCOL_VERSION, role: Role::Coin, inputs: 1, outputs: 0 }
}

/// One falling edge on the pulse line, at `now_ms`: counted unless it is
/// bounce.
pub fn coin_pulse(pulses: &mut EdgeLatch, now_ms: u32)
    ensures
        final(pulses)@ == after_record(old(pulses)@, now_ms, PULSE_DEBOUNCE_MS),
{
    pulses.record(now_ms, PULSE_DEBOUNCE_MS);
}

/// The pulse count of a coin whose burst has ended, clamped to what the
/// protocol carries.
pub open spec fn burst_of(m: LatchModel, now_ms: u32) -> Option<u8> {
    if m.count > 0 && elapsed(now_ms, m.last_ms) >= BURST_GAP_MS {
        Some(if m.count > 255 { 255u8 } else { m.count as u8 })
    } else {
        None
    }
}

/// A finished coin, if the pulses have been quiet for [`BURST_GAP_MS`]: the
/// burst is taken from the latch and reported once, saturating at 255
/// pulses. While the burst may still be growing, nothing is taken.
pub fn finished_burst(pulses: &mut EdgeLatch, now_ms: u32) -> (coin: Option<u8>)
    ensures
        coin == burst_of(old(pulses)@, now_ms),
        coin is Some ==> final(pulses)@ == (LatchModel { count: 0, ..old(pulses)@ }),
        coin is None ==> final(pulses)@ == old(pulses)@,
{
    match pulses.take_settled(now_ms, BURST_GAP_MS) {
        Some(n) => Some(crate::input::saturating_u8(n)),
        None => None,
    }
}

/// What a coin board does about a command.
#[derive(Debug, Clone, Copy, PartialEq, Eq, Structural)]
pub enum CoinCommandOutcome {
    /// The board has no outputs; the command is ignored.
    NoOutputs { channel: u8 },
    /// Uncounted pulses were thrown away: they belong to the previous session.
    Discarded { dropped: u32 },
    /// The board introduces itself again.
    Hello(Descriptor),
}

/// Carry out a command on a coin board: `Reset` discards the pulses of the
/// previous session, `Describe` answers with the board's descriptor, and
/// `SetOutput` is ignored, the board having no outputs.
pub fn coin_command(pulses: &mut EdgeLatch, command: Command) -> (outcome: CoinCommandOutcome)
    ensures
        command matches Command::SetOutput { channel, .. } ==> (
            outcome == CoinCommandOutcome::NoOutputs { channel } && final(pulses)@ == old(pulses)@),
        command is Reset ==> (outcome == CoinCommandOutcome::Discarded { dropped: old(pulses)@.count }
            && final(pulses)@ == (LatchModel { count: 0, ..old(pulses)@ })),
        command is Describe ==> (outcome == CoinCommandOutcome::Hello(coin_board_spec())
            && final(pulses)@ == old(pulses)@),
{
    match command {
        Command::SetOutput { channel, .. } => CoinCommandOutcome::NoOutputs { channel },
        Command::Reset => CoinCommandOutcome::Discarded { dropped: pulses.discard() },
        Command::Describe => CoinCommandOutcome::Hello(coin_board()),
    }
}

/// What a coin board queues on connect: its introduction, first.
pub fn fresh_outbox() -> (outbox: Vec<Event>)
    ensures
        outbox@ == seq![Event::Hello(coin_board_spec())],
{
    let mut outbox: Vec<Event> = Vec::new();
    outbox.push(Event::Hello(coin_board()));
    outbox
}

/// The outbox after a pass has queued any finished coin.
pub open spec fn queued_after(outbox: Seq<Event>, pulses: LatchModel, now_ms: u32) -> Seq<Event> {
    match burst_of(pulses, now_ms) {
        Some(p) => outbox.push(Event::Coin { channel: 0, pulses: p }),
        None => outbox,
    }
}

/// One pass of a coin board's loop: a finished coin joins the end of the
/// outbox; then, if a client is subscribed, the oldest queued event is
/// taken to be notified. Nothing is sent to nobody, and at most one event
/// goes per pass.
pub fn coin_pass(pulses: &mut EdgeLatch, outbox: &mut Vec<Event>, now_ms: u32, subscribed: bool) -> (sent: Option<Event>)
    ensures
        burst_of(old(pulses)@, now_ms) is Some ==> final(pulses)@ == (LatchModel { count: 0, ..old(pulses)@ }),
        burst_of(old(pulses)@, now_ms) is None ==> final(pulses)@ == old(pulses)@,
        ({
            let queued = queued_after(old(outbox)@, old(pulses)@, now_ms);
            if subscribed && queued.len() > 0 {
                sent == Some(queued[0]) && final(outbox)@ == queued.drop_first()
            } else {
                sent is None && final(outbox)@ == queued
            }
        }),
{
    if let Some(p) = finished_burst(pulses, now_ms) {
        outbox.push(Event::Coin { channel: 0, pulses: p });
    }
    if subscribed && outbox.len() > 0 {
        let event = outbox.remove(0);
        Some(event)
    } else {
        None
    }
}

} // verus!
