//! Whack-a-mole: light one module at a time; the player presses whichever is
//! lit. Wrong presses are ignored, a press queued before the light is not a
//! hit, and an unlit module dropping out does not end the game.

use vstd::prelude::*;
use crate::link::{copy_ids, same_ids, ModuleId};
use crate::runtime::{require, refusal_of, serves, Roster, WaitError, WaitErrorView};
use super::{pick, Action, Note, Reply, ScenarioError, PATIENCE_MS};

verus! {

/// Where a game of whack-a-mole is: which action it is waiting to hear about.
#[derive(Debug, Clone, Copy, PartialEq, Eq, Structural)]
pub enum WhackPhase {
    /// Every output is being reset.
    Resetting,
    /// A random pause is being drawn.
    DrawingDelay,
    /// The pause before the next light.
    Pausing,
    /// The next target is being drawn.
    DrawingTarget,
    /// The target is being lit.
    Lighting,
    /// Presses queued before the light are being dropped.
    Dropping,
    /// Waiting for the target to be pressed.
    Waiting,
    /// The target is being switched off.
    Darkening,
    /// The game is over.
    Finished,
}

/// The pause before a light, from a random draw: 500 to 1999 ms.
pub open spec fn pause_ms(r: u64) -> u64 {
    (r % 1500 + 500) as u64
}

/// Whether `reply` is the kind of reply a game in `phase` waits to hear.
pub open spec fn whack_expects(phase: WhackPhase, reply: Reply) -> bool {
    match phase {
        WhackPhase::Resetting | WhackPhase::Pausing | WhackPhase::Lighting | WhackPhase::Darkening => reply is Done,
        WhackPhase::DrawingDelay | WhackPhase::DrawingTarget => reply is Random,
        WhackPhase::Dropping => reply is Dropped,
        WhackPhase::Waiting => reply is PressOn,
        WhackPhase::Finished => false,
    }
}

/// Whether a reply is a hit on the target or a timeout: what ends a round.
pub open spec fn ends_round(reply: Reply) -> bool {
    reply is PressOn && (reply->PressOn_0 is Ok || reply->PressOn_0->Err_0@ is Timeout)
}

/// Whether a reply is the loss of a module other than `target`.
pub open spec fn loses_another(target: Seq<char>, reply: Reply) -> bool {
    &&& reply is PressOn
    &&& reply->PressOn_0 is Err
    &&& reply->PressOn_0->Err_0@ is ModuleLost
    &&& reply->PressOn_0->Err_0@->ModuleLost_0 != target
}

/// Where a round waiting on `target` goes on `reply`: a hit or a timeout
/// switches the target off, the loss of another module keeps it waiting,
/// and anything else ends the game.
pub open spec fn round_step(target: Seq<char>, reply: Reply, next: WhackPhase) -> bool {
    if ends_round(reply) {
        next == WhackPhase::Darkening
    } else if loses_another(target, reply) {
        next == WhackPhase::Waiting
    } else {
        next == WhackPhase::Finished
    }
}

/// A round ends only on a hit or a timeout: over the replies a round
/// waiting on `target` hears, every one that leaves it waiting is the loss
/// of another module, the round goes dark exactly when the last is a hit on
/// the target or a timeout, and any other reply ends the game.
pub proof fn law_a_round_ends_only_on_a_hit_or_a_timeout(
    target: Seq<char>,
    phases: Seq<WhackPhase>,
    replies: Seq<Reply>,
)
    requires
        replies.len() >= 1,
        phases.len() == replies.len() + 1,
        forall|i: int| 0 <= i < replies.len() ==> phases[i] == WhackPhase::Waiting,
        forall|i: int| 0 <= i < replies.len() ==> #[trigger] round_step(target, replies[i], phases[i + 1]),
    ensures
        forall|i: int| 0 <= i < replies.len() - 1 ==> #[trigger] loses_another(target, replies[i]),
        phases.last() == WhackPhase::Darkening <==> ends_round(replies.last()),
        phases.last() == WhackPhase::Waiting <==> loses_another(target, replies.last()),
        !ends_round(replies.last()) && !loses_another(target, replies.last()) ==> phases.last() == WhackPhase::Finished,
{
    assert forall|i: int| 0 <= i < replies.len() - 1 implies #[trigger] loses_another(target, replies[i]) by {
        assert(round_step(target, replies[i], phases[i + 1]));
        assert(phases[i + 1] == WhackPhase::Waiting);
    }
    let n = replies.len() - 1;
    assert(round_step(target, replies[n], phases[n + 1]));
    assert(phases.last() == phases[n + 1]);
}

/// The pause before a light lies between half a second and two seconds,
/// and moves with the draw: it is 500 ms more than the draw's remainder by
/// 1500.
pub proof fn law_the_pause_is_half_a_second_to_two(r: u64)
    ensures
        500 <= pause_ms(r) < 2000,
        pause_ms(r) - 500 == (r as int) % 1500,
{
}

/// A game of whack-a-mole over a fixed set of modules.
pub struct WhackAMole {
    ids: Vec<ModuleId>,
    target: ModuleId,
    phase: WhackPhase,
}

impl WhackAMole {
    /// The modules in play.
    pub closed spec fn modules(&self) -> Seq<ModuleId> {
        self.ids@
    }

    /// What the game is waiting to hear about.
    pub closed spec fn phase(&self) -> WhackPhase {
        self.phase
    }

    /// The module of the current round.
    pub closed spec fn target(&self) -> Seq<char> {
        self.target@
    }

    /// The module this game has switched on and not yet off.
    pub open spec fn lit(&self) -> Option<Seq<char>> {
        match self.phase() {
            WhackPhase::Lighting | WhackPhase::Dropping | WhackPhase::Waiting => Some(self.target()),
            _ => None,
        }
    }

    /// The game is well formed: it has modules to play with.
    pub open spec fn wf(&self) -> bool {
        self.modules().len() > 0
    }

    /// Start a game: every module must have an input and an output, then
    /// every output is reset.
    pub fn start(modules: &Roster) -> (started: Result<(WhackAMole, Action), ScenarioError>)
        requires
            modules.id_list().len() > 0,
        ensures
            started matches Ok((game, action)) ==> {
                &&& game.wf()
                &&& same_ids(game.modules(), modules.id_list())
                &&& game.phase() == WhackPhase::Resetting
                &&& action is ResetAll
                &&& forall|i: int| 0 <= i < modules.id_list().len() ==> #[trigger] serves(*modules, modules.id_list()[i]@, None, 1, 1)
            },
            // The first module that cannot take part is the one refused.
            started matches Err(e) ==> (e matches ScenarioError::Require(r) && exists|k: int|
                0 <= k < modules.id_list().len() && refusal_of(*modules, r, modules.id_list()[k]@, None, 1, 1)
                && !#[trigger] serves(*modules, modules.id_list()[k]@, None, 1, 1)
                && forall|j: int| 0 <= j < k ==> #[trigger] serves(*modules, modules.id_list()[j]@, None, 1, 1)),
    {
        let ids = modules.ids();
        let mut i: usize = 0;
        while i < ids.len()
            invariant
                ids@ == modules.id_list(),
                i <= ids@.len(),
                forall|k: int| 0 <= k < i ==> #[trigger] serves(*modules, modules.id_list()[k]@, None, 1, 1),
            decreases ids@.len() - i,
        {
            match require(modules, &ids[i], 1, 1) {
                Err(e) => return Err(ScenarioError::Require(e)),
                Ok(()) => {},
            }
            i += 1;
        }
        let copy = copy_ids(ids);
        let target = copy[0].duplicate();
        let game = WhackAMole { ids: copy, target, phase: WhackPhase::Resetting };
        Ok((game, Action::ResetAll))
    }

    /// Hear the reply to the last action, and say what to do next.
    ///
    /// A reply of the wrong kind for the pending action ends the game with
    /// [`ScenarioError::UnexpectedReply`].
    pub fn step(&mut self, reply: Reply) -> (next: (Vec<Note>, Action))
        requires
            old(self).wf(),
        ensures
            final(self).wf(),
            same_ids(final(self).modules(), old(self).modules()),
            // Nothing is switched on while another module is lit, and only the
            // lit module is switched off.
            next.1 matches Action::SetOutput { id, channel, on } ==> channel == 0 && (if on {
                old(self).lit() is None && final(self).lit() == Some(id@)
            } else {
                old(self).lit() == Some(id@) && final(self).lit() is None
            }),
            !(next.1 is SetOutput) && !(next.1 is Finish) ==> final(self).lit() == old(self).lit(),
            ({
                let phase = old(self).phase();
                let target = old(self).target();
                &&& phase == WhackPhase::Resetting && reply is Done ==> (
                    next.1 is DrawRandom && final(self).phase() == WhackPhase::DrawingDelay && next.0.len() == 0)
                &&& (reply is Random && phase == WhackPhase::DrawingDelay ==> (
                    next.1 == Action::Sleep { ms: pause_ms(reply->Random_0) } && final(self).phase() == WhackPhase::Pausing))
                // The pause is half a second plus the draw modulo 1.5 s: never
                // shorter than 500 ms, never 2 s or longer.
                &&& (reply is Random && phase == WhackPhase::DrawingDelay ==> (
                    next.1 matches Action::Sleep { ms } && 500 <= ms < 2000
                    && ms - 500 == (reply->Random_0 as int) % 1500))
                &&& phase == WhackPhase::Pausing && reply is Done ==> (
                    next.1 is DrawRandom && final(self).phase() == WhackPhase::DrawingTarget)
                // The target is the module the random number picks.
                &&& (reply is Random && phase == WhackPhase::DrawingTarget ==> (
                    next.1 is SetOutput && final(self).phase() == WhackPhase::Lighting
                    && final(self).target() == old(self).modules()[(reply->Random_0 as int) % (old(self).modules().len() as int)]@))
                // A press queued before the light is not a hit: once lit, the
                // queue is cleared before the wait starts.
                &&& phase == WhackPhase::Lighting && reply is Done ==> (
                    next.1 is DropPendingPresses && final(self).phase() == WhackPhase::Dropping)
                &&& phase == WhackPhase::Dropping && reply is Dropped ==> (
                    next.1 matches Action::WaitForPress { id, timeout_ms } && id@ == target && timeout_ms == PATIENCE_MS
                    && final(self).phase() == WhackPhase::Waiting && final(self).target() == target)
                // A hit or a timeout ends the round by switching the target off.
                &&& (reply matches Reply::PressOn(r) && phase == WhackPhase::Waiting
                    && (r is Ok || r == Err::<u8, WaitError>(WaitError::Timeout)) ==> (
                    next.1 is SetOutput && final(self).phase() == WhackPhase::Darkening))
                // Losing another module changes nothing: keep waiting on the target.
                &&& (reply matches Reply::PressOn(Err(WaitError::ModuleLost(lost))) && phase == WhackPhase::Waiting
                    && lost@ != target ==> (
                    next.1 matches Action::WaitForPress { id, timeout_ms } && id@ == target && timeout_ms == PATIENCE_MS
                    && final(self).phase() == WhackPhase::Waiting && final(self).target() == target))
                // Losing the target, or the runtime closing, ends the game.
                &&& (reply is PressOn && reply->PressOn_0 is Err && phase == WhackPhase::Waiting
                    && (reply->PressOn_0->Err_0@ is ModuleLost ==> reply->PressOn_0->Err_0@->ModuleLost_0 == target)
                    && !(reply->PressOn_0->Err_0@ is Timeout) ==> (
                    next.1 matches Action::Finish(Err(ScenarioError::Wait(w))) && w@ == reply->PressOn_0->Err_0@
                    && final(self).phase() == WhackPhase::Finished))
                &&& phase == WhackPhase::Darkening && reply is Done ==> (
                    next.1 is DrawRandom && final(self).phase() == WhackPhase::DrawingDelay)
                // What the game log is told: stale presses dropped and the
                // light, then a hit, a miss of the round, or a module lost.
                &&& (phase == WhackPhase::Dropping && reply is Dropped ==> {
                    &&& next.0@.len() == (if reply->Dropped_0 > 0 { 2int } else { 1int })
                    &&& reply->Dropped_0 > 0 ==> (next.0@[0] matches Note::DroppedStale { count, target: t }
                        && count == reply->Dropped_0 && t@ == target)
                    &&& next.0@.last() matches Note::Lit { target: t } && t@ == target
                })
                &&& (phase == WhackPhase::Waiting && reply is PressOn && reply->PressOn_0 is Ok ==> (
                    next.0@.len() == 1 && (next.0@[0] matches Note::Hit { target: t } && t@ == target)))
                &&& (phase == WhackPhase::Waiting && reply is PressOn && reply->PressOn_0 is Err
                    && reply->PressOn_0->Err_0@ is Timeout ==> (
                    next.0@.len() == 1 && (next.0@[0] matches Note::NobodyPressed { target: t } && t@ == target)))
                &&& (phase == WhackPhase::Waiting && reply is PressOn && reply->PressOn_0 is Err
                    && reply->PressOn_0->Err_0@ is ModuleLost && reply->PressOn_0->Err_0@->ModuleLost_0 != target ==> (
                    next.0@.len() == 1 && (next.0@[0] matches Note::Continuing { lost: l }
                    && l@ == reply->PressOn_0->Err_0@->ModuleLost_0)))
                &&& phase != WhackPhase::Dropping && phase != WhackPhase::Waiting ==> next.0@.len() == 0
                &&& next.1 is Finish ==> next.0@.len() == 0
                &&& phase == WhackPhase::Waiting ==> round_step(target, reply, final(self).phase())
                // Only a draw changes the module of the round.
                &&& !(phase == WhackPhase::DrawingTarget && reply is Random) ==> final(self).target() == target
                // A reply of the wrong kind ends the game.
                &&& !whack_expects(phase, reply) ==> (
                    next.1 matches Action::Finish(Err(ScenarioError::UnexpectedReply))
                    && final(self).phase() == WhackPhase::Finished)
            }),
    {
        let phase = self.phase;
        match (phase, reply) {
            (WhackPhase::Resetting, Reply::Done) => {
                self.phase = WhackPhase::DrawingDelay;
                (Vec::new(), Action::DrawRandom)
            },
            (WhackPhase::DrawingDelay, Reply::Random(r)) => {
                self.phase = WhackPhase::Pausing;
                (Vec::new(), Action::Sleep { ms: r % 1500 + 500 })
            },
            (WhackPhase::Pausing, Reply::Done) => {
                self.phase = WhackPhase::DrawingTarget;
                (Vec::new(), Action::DrawRandom)
            },
            (WhackPhase::DrawingTarget, Reply::Random(r)) => {
                self.target = pick(&self.ids, r);
                self.phase = WhackPhase::Lighting;
                (Vec::new(), Action::SetOutput { id: self.target.duplicate(), channel: 0, on: true })
            },
            (WhackPhase::Lighting, Reply::Done) => {
                self.phase = WhackPhase::Dropping;
                (Vec::new(), Action::DropPendingPresses)
            },
            (WhackPhase::Dropping, Reply::Dropped(count)) => {
                self.phase = WhackPhase::Waiting;
                let mut notes: Vec<Note> = Vec::new();
                if count > 0 {
                    notes.push(Note::DroppedStale { count, target: self.target.duplicate() });
                }
                notes.push(Note::Lit { target: self.target.duplicate() });
                (notes, Action::WaitForPress { id: self.target.duplicate(), timeout_ms: PATIENCE_MS })
            },
            (WhackPhase::Waiting, Reply::PressOn(result)) => {
                match result {
                    Ok(_channel) => {
                        self.phase = WhackPhase::Darkening;
                        let notes = vec![Note::Hit { target: self.target.duplicate() }];
                        (notes, Action::SetOutput { id: self.target.duplicate(), channel: 0, on: false })
                    },
                    Err(WaitError::Timeout) => {
                        self.phase = WhackPhase::Darkening;
                        let notes = vec![Note::NobodyPressed { target: self.target.duplicate() }];
                        (notes, Action::SetOutput { id: self.target.duplicate(), channel: 0, on: false })
                    },
                    Err(WaitError::ModuleLost(lost)) => {
                        if !lost.same(&self.target) {
                            let notes = vec![Note::Continuing { lost }];
                            (notes, Action::WaitForPress { id: self.target.duplicate(), timeout_ms: PATIENCE_MS })
                        } else {
                            self.phase = WhackPhase::Finished;
                            (Vec::new(), Action::Finish(Err(ScenarioError::Wait(WaitError::ModuleLost(lost)))))
                        }
                    },
                    Err(WaitError::Closed) => {
                        self.phase = WhackPhase::Finished;
                        (Vec::new(), Action::Finish(Err(ScenarioError::Wait(WaitError::Closed))))
                    },
                }
            },
            (WhackPhase::Darkening, Reply::Done) => {
                self.phase = WhackPhase::DrawingDelay;
                (Vec::new(), Action::DrawRandom)
            },
            _ => {
                self.phase = WhackPhase::Finished;
                (Vec::new(), Action::Finish(Err(ScenarioError::UnexpectedReply)))
            },
        }
    }
}

} // verus!
