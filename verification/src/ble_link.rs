//! The decisions of the BLE transport: how long to wait before rescanning,
//! which peripherals are ours, what the button firmware's bytes mean, and
//! when a set of scanned modules may start a scenario.

use vstd::prelude::*;
use vstd::string::*;
use crate::link::{ModuleEvent, ModuleId};
use crate::proto::{Command, Descriptor, Event, Role, PROTOCOL_VERSION};
use crate::text::{chars_of, decimal, push_decimal};

verus! {

/// Peripherals whose advertised local name starts with this are ours.
pub const NAME_PREFIX: &'static str = "modit";

/// First wait after a failed acquisition, in milliseconds.
pub const BACKOFF_START_MS: u64 = 3000;

/// Ceiling on the acquisition backoff, in milliseconds.
pub const BACKOFF_MAX_MS: u64 = 30_000;

/// How long to check a module is still there when nothing arrives, in
/// milliseconds.
pub const LIVENESS_INTERVAL_MS: u64 = 1000;

/// The wait after `current`: the start value after no wait, else double the
/// wait, capped at the ceiling.
pub open spec fn backoff_after(current: u64) -> u64 {
    if current == 0 {
        BACKOFF_START_MS
    } else if 2 * current > BACKOFF_MAX_MS {
        BACKOFF_MAX_MS
    } else {
        (2 * current) as u64
    }
}

/// Grow the wait between acquisition attempts, so an absent module does not
/// spin the radio: 3 s, doubling, capped at 30 s.
pub fn next_backoff(current_ms: u64) -> (next_ms: u64)
    ensures
        next_ms == backoff_after(current_ms),
{
    if current_ms == 0 {
        BACKOFF_START_MS
    } else if current_ms > BACKOFF_MAX_MS / 2 {
        BACKOFF_MAX_MS
    } else {
        current_ms * 2
    }
}

/// The backoff never grows past its ceiling, and until it reaches the
/// ceiling it never shrinks: from a wait at or under 30 s, the next wait is
/// at least as long and at most 30 s.
pub proof fn law_backoff_grows_to_its_ceiling(current_ms: u64)
    requires
        current_ms <= BACKOFF_MAX_MS,
    ensures
        current_ms <= backoff_after(current_ms) <= BACKOFF_MAX_MS,
        current_ms > 0 && current_ms < BACKOFF_MAX_MS ==> backoff_after(current_ms) > current_ms,
{
}

/// Whether an advertised name marks a modit module: it starts with `modit`.
pub fn is_modit_name(name: &str) -> (ours: bool)
    ensures
        ours == (name@.len() >= NAME_PREFIX@.len() && name@.take(NAME_PREFIX@.len() as int) == NAME_PREFIX@),
{
    let chars = chars_of(name);
    let prefix = chars_of(NAME_PREFIX);
    if chars.len() < prefix.len() {
        return false;
    }
    let mut i: usize = 0;
    while i < prefix.len()
        invariant
            chars@ == name@,
            prefix@ == NAME_PREFIX@,
            prefix@.len() <= chars@.len(),
            i <= prefix@.len(),
            forall|k: int| 0 <= k < i ==> chars@[k] == prefix@[k],
        decreases prefix@.len() - i,
    {
        if chars[i] != prefix[i] {
            return false;
        }
        i += 1;
    }
    assert(chars@.take(prefix@.len() as int) =~= prefix@);
    true
}

/// The `Hello` the button firmware would send, synthesised because it sends
/// none: a button of the current protocol with one input and one output.
pub fn button_hello() -> (descriptor: Descriptor)
    ensures
        descriptor == (Descriptor { protocol: PROTOCOL_VERSION, role: Role::Button, inputs: 1, outputs: 1 }),
{
    Descriptor { protocol: PROTOCOL_VERSION, role: Role::Button, inputs: 1, outputs: 1 }
}

/// A command the button firmware cannot carry out.
#[derive(Debug, Clone, Copy, PartialEq, Eq, Structural)]
pub struct OneOutputError {
    /// The channel asked for; the firmware has only channel 0.
    pub channel: u8,
}

/// How [`OneOutputError`] is reported for module `id`.
pub open spec fn one_output_text(id: Seq<char>, e: OneOutputError) -> Seq<char> {
    "module "@ + id + " has one output, cannot set channel "@ + decimal(e.channel as nat)
}

impl OneOutputError {
    /// The sentence this error is reported with, naming the module.
    pub fn message(&self, id: &ModuleId) -> (text: String)
        ensures
            text@ == one_output_text(id@, *self),
    {
        let mut s = String::from_str("module ");
        s.append(id.as_str());
        s.append(" has one output, cannot set channel ");
        push_decimal(&mut s, self.channel as u64);
        s
    }
}

/// What the button firmware is sent for a command, in its own wire format:
/// one byte, `1` to light the LED and `0` to switch it off; `None` when there
/// is nothing to send (the descriptor is synthesised, not asked for).
pub fn button_payload(command: Command) -> (payload: Result<Option<u8>, OneOutputError>)
    ensures
        command matches Command::SetOutput { channel, on } ==> (
            if channel == 0 {
                payload == Ok::<Option<u8>, OneOutputError>(Some(if on { 1u8 } else { 0u8 }))
            } else {
                payload == Err::<Option<u8>, OneOutputError>(OneOutputError { channel })
            }),
        command is Reset ==> payload == Ok::<Option<u8>, OneOutputError>(Some(0u8)),
        command is Describe ==> payload == Ok::<Option<u8>, OneOutputError>(None),
{
    match command {
        Command::SetOutput { channel: 0, on } => Ok(Some(if on { 1 } else { 0 })),
        Command::SetOutput { channel, .. } => Err(OneOutputError { channel }),
        Command::Reset => Ok(Some(0)),
        Command::Describe => Ok(None),
    }
}

/// What one module's notification stream produced.
#[derive(Debug, Clone, Copy, PartialEq, Eq, Structural)]
pub enum StreamInput {
    /// The stream ended: the module stopped notifying.
    Ended,
    /// A notification on the characteristic with this UUID.
    Notification { uuid: u128 },
    /// The liveness tick, and whether the module still answered.
    Tick { connected: bool },
}

/// What a module's stream means to the runtime, given the characteristic
/// its button notifies on: the end of the stream or a failed liveness check
/// is a loss, a notification on the button characteristic is a press of
/// channel 0 (any payload), anything else is ignored (`None`).
pub fn stream_event(wanted: u128, input: StreamInput) -> (event: Option<ModuleEvent>)
    ensures
        input == StreamInput::Ended ==> event == Some(ModuleEvent::Lost),
        input matches StreamInput::Tick { connected } ==> event == (if connected { None } else { Some(ModuleEvent::Lost) }),
        input matches StreamInput::Notification { uuid } ==> event == (if uuid == wanted {
            Some(ModuleEvent::Message(Event::Pressed { channel: 0 }))
        } else {
            None::<ModuleEvent>
        }),
{
    match input {
        StreamInput::Ended => Some(ModuleEvent::Lost),
        StreamInput::Notification { uuid } => if uuid == wanted {
            Some(ModuleEvent::Message(Event::Pressed { channel: 0 }))
        } else {
            None
        },
        StreamInput::Tick { connected } => if connected { None } else { Some(ModuleEvent::Lost) },
    }
}

/// What one scan means for acquisition.
#[derive(Debug, Clone, Copy, PartialEq, Eq, Structural)]
pub enum ScanOutcome {
    /// Some modules are missing: rescan after this many milliseconds.
    Rescan { backoff_ms: u64 },
    /// Every module is bound, but there were none: refuse to start.
    NothingBound,
    /// Every module is bound: start, and reset the backoff.
    Bound,
}

/// Decide what a scan that bound `found[i]` for each definition means.
pub fn scan_outcome(found: &Vec<bool>, backoff_ms: u64) -> (outcome: ScanOutcome)
    ensures
        (exists|i: int| 0 <= i < found@.len() && !found@[i]) ==> outcome == (ScanOutcome::Rescan { backoff_ms: backoff_after(backoff_ms) }),
        (forall|i: int| 0 <= i < found@.len() ==> found@[i]) && found@.len() == 0 ==> outcome == ScanOutcome::NothingBound,
        (forall|i: int| 0 <= i < found@.len() ==> found@[i]) && found@.len() > 0 ==> outcome == ScanOutcome::Bound,
{
    let mut i: usize = 0;
    while i < found.len()
        invariant
            i <= found@.len(),
            forall|k: int| 0 <= k < i ==> found@[k],
        decreases found@.len() - i,
    {
        if !found[i] {
            return ScanOutcome::Rescan { backoff_ms: next_backoff(backoff_ms) };
        }
        i += 1;
    }
    if found.len() == 0 {
        ScanOutcome::NothingBound
    } else {
        ScanOutcome::Bound
    }
}

} // verus!
