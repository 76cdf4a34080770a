//! Scenarios: the games. Each is a state machine that the runtime drives: it
//! hands the scenario a [`Reply`] to the last [`Action`] and performs the
//! next one. Which modules light, when, and what a press or a coin counts
//! for is decided here; sleeping, waiting on the link and drawing random
//! numbers is the driver's part.

pub mod arcade;
pub mod simon_says;
pub mod speedrun;
pub mod whack_a_mole;

use vstd::prelude::*;
use vstd::string::*;
use crate::link::ModuleId;
use crate::runtime::{require_error_text, wait_error_text, RequireError, WaitError};
use crate::text::{decimal, push_decimal};

verus! {

/// How long a player gets before a round gives up on them, in milliseconds.
pub const PATIENCE_MS: u64 = 30_000;

/// Which stopwatch a timing action refers to.
#[derive(Debug, Clone, Copy, PartialEq, Eq, Structural)]
pub enum Timer {
    /// Started when the whole run starts.
    Run,
    /// Started when the current lap's module lights.
    Lap,
}

/// What the scenario asks the driver to do next.
#[derive(Debug)]
pub enum Action {
    /// Turn every output off, on every module.
    ResetAll,
    /// Wait this many milliseconds.
    Sleep { ms: u64 },
    /// Drive one output of one module.
    SetOutput { id: ModuleId, channel: u8, on: bool },
    /// Throw away every press already queued; reply with how many.
    DropPendingPresses,
    /// Wait for a press on one module, ignoring presses elsewhere.
    WaitForPress { id: ModuleId, timeout_ms: u64 },
    /// Wait for the next press from any module.
    NextPress { timeout_ms: u64 },
    /// Wait for the next coin from any module.
    NextCoin { timeout_ms: u64 },
    /// Draw a random number.
    DrawRandom,
    /// Start a stopwatch.
    StartTimer(Timer),
    /// Read a stopwatch, in nanoseconds.
    ReadTimer(Timer),
    /// The scenario is over, with this result.
    Finish(Result<(), ScenarioError>),
}

/// What the driver reports back after performing an [`Action`].
#[derive(Debug)]
pub enum Reply {
    /// `ResetAll`, `Sleep`, `SetOutput` or `StartTimer` was performed.
    Done,
    /// `DropPendingPresses` dropped this many presses.
    Dropped(usize),
    /// `DrawRandom` drew this number.
    Random(u64),
    /// `ReadTimer` read this many nanoseconds.
    Elapsed(u64),
    /// What `WaitForPress` produced: the channel pressed, or why not.
    PressOn(Result<u8, WaitError>),
    /// What `NextPress` produced: the module and channel, or why not.
    Press(Result<(ModuleId, u8), WaitError>),
    /// What `NextCoin` produced: the module and its pulse count, or why not.
    Coin(Result<(ModuleId, u8), WaitError>),
}

/// Something worth telling the person watching the game log.
#[derive(Debug)]
pub enum Note {
    /// Presses that arrived before the module lit were dropped.
    DroppedStale { count: usize, target: ModuleId },
    /// This module is lit.
    Lit { target: ModuleId },
    /// The lit module was pressed.
    Hit { target: ModuleId },
    /// Nobody pressed the lit module in time.
    NobodyPressed { target: ModuleId },
    /// An unlit module dropped out; the game carries on without it.
    Continuing { lost: ModuleId },
    /// A sequence of this length is being shown.
    Showing { length: usize },
    /// Step `step` (from 1) of the repetition was right.
    StepCorrect { step: usize },
    /// Step `step` (from 1) was the wrong module.
    StepWrong { step: usize, pressed: ModuleId, expected: ModuleId },
    /// Nobody answered in time.
    NoAnswer,
    /// The round is over with this score.
    RoundOver { score: usize },
    /// A speedrun of `laps` laps over `modules` modules starts.
    RunStarting { laps: usize, modules: usize },
    /// The wrong module was pressed during a lap.
    Miss { pressed: ModuleId, wanted: ModuleId },
    /// Nobody pressed in time; the run is abandoned.
    Abandoned,
    /// Lap `lap` (from 1) took `split_ns`; the run has taken `total_ns`.
    Lap { lap: usize, split_ns: u64, total_ns: u64 },
    /// The run is complete.
    Complete { board: Scoreboard },
    /// Waiting for a coin, with this many buttons ready.
    InsertCoin { buttons: usize },
    /// A coin came from a module that is not the coin slot.
    IgnoredCoin { pulses: u8, from: ModuleId },
    /// Nobody paid within the attract-mode patience.
    NobodyPlayed,
    /// A coin worth less than one credit.
    UnderPrice { pulses: u8 },
    /// A coin bought this many credits.
    Credits { pulses: u8, credits: u8 },
    /// Credit `credit` of `credits` is being played.
    Credit { credit: u8, credits: u8 },
    /// A credit's press landed.
    CreditHit,
    /// A credit was not used in time.
    Forfeited,
    /// Every credit of a coin was played.
    GameOver { credits: u8 },
}

/// A finished speedrun, in nanoseconds.
#[derive(Debug, Clone, Copy, PartialEq, Eq, Structural)]
pub struct Scoreboard {
    pub total_ns: u128,
    pub best_ns: u64,
    pub average_ns: u64,
    pub worst_ns: u64,
    pub misses: usize,
}

/// Why a scenario ended with an error.
#[derive(Debug)]
pub enum ScenarioError {
    /// A wait failed in a way the scenario does not tolerate.
    Wait(WaitError),
    /// A module cannot do what the scenario needs.
    Require(RequireError),
    /// A speedrun needs at least two modules.
    TooFewModules { found: usize },
    /// A module never said what it was.
    Undescribed { id: ModuleId },
    /// No module is a coin acceptor.
    NoCoinAcceptor,
    /// No module is a button.
    NoButtons,
    /// The driver answered an action with the wrong kind of reply.
    UnexpectedReply,
}

/// How a [`ScenarioError`] is reported.
pub open spec fn scenario_error_text(e: ScenarioError) -> Seq<char> {
    match e {
        ScenarioError::Wait(w) => wait_error_text(w@),
        ScenarioError::Require(r) => require_error_text(r),
        ScenarioError::TooFewModules { found } =>
            "speedrun needs at least 2 modules, found "@ + decimal(found as nat) + ": there is nothing to move between"@,
        ScenarioError::Undescribed { id } =>
            "module "@ + id@ + " never said what it was, so arcade cannot tell the coin slot from the buttons"@,
        ScenarioError::NoCoinAcceptor => "arcade needs a coin acceptor; none of the modules is one"@,
        ScenarioError::NoButtons => "arcade needs at least one button module to play with"@,
        ScenarioError::UnexpectedReply => "the scenario was answered with the wrong kind of reply"@,
    }
}

impl ScenarioError {
    /// The sentence this error is reported with.
    pub fn message(&self) -> (text: String)
        ensures
            text@ == scenario_error_text(*self),
    {
        match self {
            ScenarioError::Wait(w) => w.message(),
            ScenarioError::Require(r) => r.message(),
            ScenarioError::TooFewModules { found } => {
                let mut s = String::from_str("speedrun needs at least 2 modules, found ");
                push_decimal(&mut s, *found as u64);
                s.append(": there is nothing to move between");
                s
            },
            ScenarioError::Undescribed { id } => {
                let mut s = String::from_str("module ");
                s.append(id.as_str());
                s.append(" never said what it was, so arcade cannot tell the coin slot from the buttons");
                s
            },
            ScenarioError::NoCoinAcceptor => String::from_str("arcade needs a coin acceptor; none of the modules is one"),
            ScenarioError::NoButtons => String::from_str("arcade needs at least one button module to play with"),
            ScenarioError::UnexpectedReply => String::from_str("the scenario was answered with the wrong kind of reply"),
        }
    }
}

/// `ids[r mod len]`: the module a random number picks.
pub fn pick(ids: &Vec<ModuleId>, r: u64) -> (picked: ModuleId)
    requires
        ids@.len() > 0,
    ensures
        picked@ == ids@[(r as int) % (ids@.len() as int)]@,
{
    let i = (r % (ids.len() as u64)) as usize;
    ids[i].duplicate()
}

} // verus!
