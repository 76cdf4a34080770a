//! The wire protocol between the brain and every module: what a module can be
//! told ([`Command`]) and what it can report ([`Event`]).
//!
//! Messages travel postcard-encoded; the encoding itself happens outside the
//! verified core, which decides what the encoder's outcome means.

use vstd::prelude::*;
use vstd::string::*;
use crate::text::{decimal, push_decimal};

verus! {

/// Bumped whenever a change would make an older module misunderstand a message.
pub const PROTOCOL_VERSION: u8 = 1;

/// Largest message that fits in a default-MTU BLE packet (23-byte ATT MTU,
/// less 3 bytes of opcode and handle).
pub const MAX_MESSAGE_LEN: usize = 20;

/// What a module *is*.
#[derive(Debug, Clone, Copy, PartialEq, Eq, Hash, Structural)]
pub enum Role {
    /// One or more buttons, one or more LEDs.
    Button,
    /// A coin acceptor: coins in, pulses out.
    Coin,
}

/// How a role is written in prose and in documentation tables.
pub open spec fn role_name(role: Role) -> Seq<char> {
    match role {
        Role::Button => seq!['B', 'u', 't', 't', 'o', 'n'],
        Role::Coin => seq!['C', 'o', 'i', 'n'],
    }
}

impl Role {
    /// Every role there is, each once.
    pub const ALL: [Role; 2] = [Role::Button, Role::Coin];

    /// How this role is written in prose and in documentation tables.
    pub fn name(&self) -> (name: &'static str)
        ensures
            name@ == role_name(*self),
    {
        proof {
            reveal_strlit("Button");
            reveal_strlit("Coin");
        }
        match self {
            Role::Button => "Button",
            Role::Coin => "Coin",
        }
    }
}

/// [`Role::ALL`] lists every role, each once.
pub proof fn law_every_role_is_listed_once(role: Role)
    ensures
        Role::ALL@.len() == 2,
        Role::ALL@[0] != Role::ALL@[1],
        Role::ALL@.contains(role),
{
    assert(Role::ALL@[0] == Role::Button);
    assert(Role::ALL@[1] == Role::Coin);
    match role {
        Role::Button => assert(Role::ALL@[0] == role),
        Role::Coin => assert(Role::ALL@[1] == role),
    }
}

/// A module's self-description, sent unprompted on connect.
#[derive(Debug, Clone, Copy, PartialEq, Eq, Structural)]
pub struct Descriptor {
    /// [`PROTOCOL_VERSION`] the firmware was built against.
    pub protocol: u8,
    pub role: Role,
    /// Number of input channels, addressed as `0..inputs`.
    pub inputs: u8,
    /// Number of output channels, addressed as `0..outputs`.
    pub outputs: u8,
}

impl Descriptor {
    /// Whether this module understands the protocol we are speaking.
    pub fn is_compatible(&self) -> (ok: bool)
        ensures
            ok == (self.protocol == PROTOCOL_VERSION),
    {
        self.protocol == PROTOCOL_VERSION
    }
}

/// Something the brain tells a module to do.
#[derive(Debug, Clone, Copy, PartialEq, Eq, Structural)]
pub enum Command {
    /// Drive one output. `channel` indexes `0..Descriptor::outputs`.
    SetOutput { channel: u8, on: bool },
    /// Return to the state the module has at boot: every output off.
    Reset,
    /// Ask the module to re-send its [`Event::Hello`].
    Describe,
}

/// Something a module reports.
#[derive(Debug, Clone, Copy, PartialEq, Eq, Structural)]
pub enum Event {
    /// Sent unprompted on connect, and in reply to [`Command::Describe`].
    Hello(Descriptor),
    /// An input went active.
    Pressed { channel: u8 },
    /// An input went inactive.
    Released { channel: u8 },
    /// A reading from a sensor channel: a level, not an increment.
    Measurement { channel: u8, value: i32 },
    /// A coin was accepted, worth `pulses` pulses: an increment.
    Coin { channel: u8, pulses: u8 },
}

/// Why a message could not be encoded or decoded.
#[derive(Debug, Clone, Copy, PartialEq, Eq, Structural)]
pub enum ProtoError {
    /// The encoded form exceeds [`MAX_MESSAGE_LEN`].
    TooLong { len: usize },
    /// The buffer handed to the encoder was too small.
    BufferTooSmall,
    /// The bytes are not a valid message.
    Malformed,
}

/// What the encoder's outcome means: `written` is the number of bytes the
/// encoder produced, or `None` when it ran out of buffer.
pub open spec fn encode_outcome(written: Option<usize>) -> Result<usize, ProtoError> {
    match written {
        None => Err(ProtoError::BufferTooSmall),
        Some(len) => if len > MAX_MESSAGE_LEN {
            Err(ProtoError::TooLong { len })
        } else {
            Ok(len)
        },
    }
}

/// Decide what an encoding attempt amounts to: the length of the message on
/// success, [`ProtoError::BufferTooSmall`] when the encoder ran out of room,
/// [`ProtoError::TooLong`] when the message would not fit a default-MTU packet.
pub fn check_encoded(written: Option<usize>) -> (outcome: Result<usize, ProtoError>)
    ensures
        outcome == encode_outcome(written),
{
    match written {
        None => Err(ProtoError::BufferTooSmall),
        Some(len) => if len > MAX_MESSAGE_LEN {
            Err(ProtoError::TooLong { len })
        } else {
            Ok(len)
        },
    }
}

/// Decide what a decoding attempt amounts to: the message, or
/// [`ProtoError::Malformed`] when the decoder refused the bytes.
pub fn check_decoded<T>(parsed: Option<T>) -> (outcome: Result<T, ProtoError>)
    ensures
        parsed matches Some(m) ==> outcome == Ok::<T, ProtoError>(m),
        parsed is None ==> outcome == Err::<T, ProtoError>(ProtoError::Malformed),
{
    match parsed {
        Some(m) => Ok(m),
        None => Err(ProtoError::Malformed),
    }
}

/// The sentence a [`ProtoError`] is reported with.
pub open spec fn proto_error_text(e: ProtoError) -> Seq<char> {
    match e {
        ProtoError::TooLong { len } =>
            "message encodes to "@ + decimal(len as nat) + " bytes, over the 20-byte limit"@,
        ProtoError::BufferTooSmall => "encode buffer too small"@,
        ProtoError::Malformed => "not a valid modit message"@,
    }
}

impl ProtoError {
    /// The sentence this error is reported with.
    pub fn message(&self) -> (text: String)
        ensures
            text@ == proto_error_text(*self),
    {
        match self {
            ProtoError::TooLong { len } => {
                let mut s = String::from_str("message encodes to ");
                push_decimal(&mut s, *len as u64);
                s.append(" bytes, over the 20-byte limit");
                s
            },
            ProtoError::BufferTooSmall => String::from_str("encode buffer too small"),
            ProtoError::Malformed => String::from_str("not a valid modit message"),
        }
    }
}

} // verus!
