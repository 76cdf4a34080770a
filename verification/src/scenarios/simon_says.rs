//! Simon Says: show a growing sequence, then have the player repeat it in
//! order. A wrong press, or no press in time, ends the round.

use vstd::prelude::*;
use crate::link::{copy_ids, same_ids, ModuleId};
use crate::runtime::{require, refusal_of, serves, Roster, WaitError};
use super::{pick, Action, Note, Reply, ScenarioError, PATIENCE_MS};

verus! {

/// How long each step of the sequence stays lit, in milliseconds.
pub const SHOW_ON_MS: u64 = 400;
/// The gap between two steps of the sequence, in milliseconds.
pub const SHOW_OFF_MS: u64 = 200;
/// On and off time of each game-over blink, in milliseconds.
pub const BLINK_MS: u64 = 150;
/// How many times everything blinks when a round is over.
pub const BLINKS: usize = 3;

/// Where a game of Simon Says is.
#[derive(Debug, Clone, Copy, PartialEq, Eq, Structural)]
pub enum SimonPhase {
    /// Every output is being reset.
    Resetting,
    /// The next step of the sequence is being drawn.
    Extending,
    /// Step `i` of the sequence is being lit.
    ShowOn { i: usize },
    /// Step `i` is lit, and the game waits.
    ShowLit { i: usize },
    /// Step `i` is being switched off.
    ShowOff { i: usize },
    /// The gap after step `i`.
    ShowGap { i: usize },
    /// Waiting for the press that repeats step `step`.
    Repeating { step: usize },
    /// Module `i` is being lit for game-over blink `blink`.
    BlinkOn { blink: usize, i: usize },
    /// Everything is lit for game-over blink `blink`.
    BlinkLit { blink: usize },
    /// Module `i` is being switched off for game-over blink `blink`.
    BlinkOff { blink: usize, i: usize },
    /// Everything is dark after game-over blink `blink`.
    BlinkDark { blink: usize },
    /// The game is over.
    Finished,
}

/// Whether `reply` is the kind of reply a game in `phase` waits to hear.
pub open spec fn simon_expects(phase: SimonPhase, reply: Reply) -> bool {
    match phase {
        SimonPhase::Extending => reply is Random,
        SimonPhase::Repeating { .. } => reply is Press,
        SimonPhase::Finished => false,
        _ => reply is Done,
    }
}

/// The sequence after a step: the same, or extended by one module.
pub open spec fn grows_by_at_most_one(before: Seq<Seq<char>>, after: Seq<Seq<char>>) -> bool {
    after == before || (after.len() == before.len() + 1 && after.drop_last() == before)
}

/// The sequence is extended, never replaced: over any run of steps, the
/// sequence shown first is how every later sequence starts, and each step
/// adds at most one module to it.
pub proof fn law_the_sequence_only_grows(sequences: Seq<Seq<Seq<char>>>)
    requires
        sequences.len() > 0,
        forall|i: int| 0 <= i < sequences.len() - 1 ==> #[trigger] grows_by_at_most_one(sequences[i], sequences[i + 1]),
    ensures
        sequences[0].len() <= sequences.last().len() <= sequences[0].len() + sequences.len() - 1,
        sequences.last().take(sequences[0].len() as int) == sequences[0],
    decreases sequences.len(),
{
    if sequences.len() > 1 {
        let earlier = sequences.drop_last();
        assert forall|i: int| 0 <= i < earlier.len() - 1 implies #[trigger] grows_by_at_most_one(earlier[i], earlier[i + 1]) by {
            assert(grows_by_at_most_one(sequences[i], sequences[i + 1]));
        }
        law_the_sequence_only_grows(earlier);
        let n = sequences.len() - 1;
        assert(grows_by_at_most_one(sequences[n - 1], sequences[(n - 1) + 1]));
        let first = sequences[0].len() as int;
        if sequences[n] != sequences[n - 1] {
            assert(sequences[n].take(first) == sequences[n - 1].take(first));
        }
    } else {
        assert(sequences.last().take(sequences[0].len() as int) == sequences[0]);
    }
}

/// A game of Simon Says.
pub struct SimonSays {
    ids: Vec<ModuleId>,
    sequence: Vec<ModuleId>,
    phase: SimonPhase,
}

impl SimonSays {
    /// The modules in play.
    pub closed spec fn modules(&self) -> Seq<ModuleId> {
        self.ids@
    }

    /// The sequence so far.
    pub closed spec fn sequence(&self) -> Seq<Seq<char>> {
        self.sequence@.map_values(|id: ModuleId| id@)
    }

    /// What the game is waiting to hear about.
    pub closed spec fn phase(&self) -> SimonPhase {
        self.phase
    }

    /// The game is well formed: it has modules, and every position the
    /// phase names is in range.
    pub closed spec fn wf(&self) -> bool {
        &&& self.ids@.len() > 0
        &&& match self.phase {
            SimonPhase::ShowOn { i } | SimonPhase::ShowLit { i } | SimonPhase::ShowOff { i } | SimonPhase::ShowGap { i } =>
                i < self.sequence@.len(),
            SimonPhase::Repeating { step } => step < self.sequence@.len(),
            SimonPhase::BlinkOn { blink, i } | SimonPhase::BlinkOff { blink, i } => blink < BLINKS && i < self.ids@.len(),
            SimonPhase::BlinkLit { blink } | SimonPhase::BlinkDark { blink } => blink < BLINKS,
            _ => true,
        }
    }

    /// Start a game: every module must have an input and an output, then
    /// every output is reset.
    pub fn start(modules: &Roster) -> (started: Result<(SimonSays, Action), ScenarioError>)
        requires
            modules.id_list().len() > 0,
        ensures
            started matches Ok((game, action)) ==> {
                &&& game.wf()
                &&& same_ids(game.modules(), modules.id_list())
                &&& game.sequence().len() == 0
                &&& game.phase() == SimonPhase::Resetting
                &&& action is ResetAll
                &&& forall|i: int| 0 <= i < modules.id_list().len() ==> #[trigger] serves(*modules, modules.id_list()[i]@, None, 1, 1)
            },
            // The first module that cannot take part is the one refused.
            started matches Err(e) ==> (e matches ScenarioError::Require(r) && exists|k: int|
                0 <= k < modules.id_list().len() && refusal_of(*modules, r, modules.id_list()[k]@, None, 1, 1)
                && !#[trigger] serves(*modules, modules.id_list()[k]@, None, 1, 1)
                && forall|j: int| 0 <= j < k ==> #[trigger] serves(*modules, modules.id_list()[j]@, None, 1, 1)),
    {
        let ids = modules.ids();
        let mut i: usize = 0;
        while i < ids.len()
            invariant
                ids@ == modules.id_list(),
                i <= ids@.len(),
                forall|k: int| 0 <= k < i ==> #[trigger] serves(*modules, modules.id_list()[k]@, None, 1, 1),
            decreases ids@.len() - i,
        {
            match require(modules, &ids[i], 1, 1) {
                Err(e) => return Err(ScenarioError::Require(e)),
                Ok(()) => {},
            }
            i += 1;
        }
        let game = SimonSays { ids: copy_ids(ids), sequence: Vec::new(), phase: SimonPhase::Resetting };
        assert(game.sequence@.map_values(|id: ModuleId| id@).len() == 0);
        Ok((game, Action::ResetAll))
    }

    /// Blink everything, announce the score, and end the round.
    fn round_over(&mut self, notes: Vec<Note>) -> (next: (Vec<Note>, Action))
        requires
            old(self).ids@.len() > 0,
            old(self).sequence@.len() > 0,
        ensures
            final(self).ids@ == old(self).ids@,
            final(self).sequence@ == old(self).sequence@,
            final(self).phase == (SimonPhase::BlinkOn { blink: 0, i: 0 }),
            next.1 matches Action::SetOutput { id, channel, on } && id@ == old(self).ids@[0]@ && channel == 0 && on,
            next.0@.len() == notes@.len() + 1,
            next.0@.drop_last() == notes@,
            next.0@.last() matches Note::RoundOver { score } && score == old(self).sequence@.len() - 1,
    {
        let mut notes = notes;
        notes.push(Note::RoundOver { score: self.sequence.len() - 1 });
        self.phase = SimonPhase::BlinkOn { blink: 0, i: 0 };
        (notes, Action::SetOutput { id: self.ids[0].duplicate(), channel: 0, on: true })
    }

    /// Hear the reply to the last action, and say what to do next.
    ///
    /// A reply of the wrong kind for the pending action ends the game with
    /// [`ScenarioError::UnexpectedReply`].
    pub fn step(&mut self, reply: Reply) -> (next: (Vec<Note>, Action))
        requires
            old(self).wf(),
        ensures
            final(self).wf(),
            same_ids(final(self).modules(), old(self).modules()),
            // The sequence is only ever extended by one step, never replaced.
            grows_by_at_most_one(old(self).sequence(), final(self).sequence()),
            // A draw always adds exactly one module to the end.
            old(self).phase() == SimonPhase::Extending && reply is Random ==> (
                final(self).sequence().len() == old(self).sequence().len() + 1
                && final(self).sequence().drop_last() == old(self).sequence()),
            final(self).sequence().len() > old(self).sequence().len() ==> (
                old(self).phase() == SimonPhase::Extending && reply is Random
                && final(self).sequence().last() == old(self).modules()[(reply->Random_0 as int) % (old(self).modules().len() as int)]@),
            ({
                let phase = old(self).phase();
                let seq = old(self).sequence();
                &&& phase == SimonPhase::Resetting && reply is Done ==> (
                    next.1 is DrawRandom && final(self).phase() == SimonPhase::Extending)
                // A new step is shown from the start of the sequence.
                &&& phase == SimonPhase::Extending && reply is Random ==> (
                    next.1 matches Action::SetOutput { id, channel, on } && on && channel == 0
                    && id@ == final(self).sequence()[0]
                    && final(self).phase() == (SimonPhase::ShowOn { i: 0 }))
                &&& (phase is ShowOn && reply is Done ==> (
                    next.1 == Action::Sleep { ms: SHOW_ON_MS } && final(self).phase() == (SimonPhase::ShowLit { i: phase->ShowOn_i })))
                &&& (phase is ShowLit && reply is Done ==> (
                    next.1 matches Action::SetOutput { id, channel, on } && !on && channel == 0
                    && id@ == seq[phase->ShowLit_i as int]
                    && final(self).phase() == (SimonPhase::ShowOff { i: phase->ShowLit_i })))
                &&& (phase is ShowOff && reply is Done ==> (
                    next.1 == Action::Sleep { ms: SHOW_OFF_MS } && final(self).phase() == (SimonPhase::ShowGap { i: phase->ShowOff_i })))
                // The steps are shown in order; after the last, the player repeats.
                &&& (phase is ShowGap && reply is Done && phase->ShowGap_i + 1 < seq.len() ==> (
                    next.1 matches Action::SetOutput { id, channel, on } && on && channel == 0
                    && id@ == seq[phase->ShowGap_i + 1]
                    && final(self).phase() == (SimonPhase::ShowOn { i: (phase->ShowGap_i + 1) as usize })))
                &&& (phase is ShowGap && reply is Done && phase->ShowGap_i + 1 >= seq.len() ==> (
                    next.1 == Action::NextPress { timeout_ms: PATIENCE_MS }
                    && final(self).phase() == (SimonPhase::Repeating { step: 0 })))
                // The right module advances the repetition; the last right
                // press extends the sequence.
                &&& (phase is Repeating && reply is Press && reply->Press_0 is Ok
                    && reply->Press_0->Ok_0.0@ == seq[phase->Repeating_step as int] ==> (
                    next.0@.len() == 1 && next.0@[0] is StepCorrect
                    && if phase->Repeating_step + 1 < seq.len() {
                        next.1 == Action::NextPress { timeout_ms: PATIENCE_MS }
                        && final(self).phase() == (SimonPhase::Repeating { step: (phase->Repeating_step + 1) as usize })
                    } else {
                        next.1 is DrawRandom && final(self).phase() == SimonPhase::Extending
                    }))
                // A wrong module, or no press in time, ends the round with the
                // game-over blink and the score.
                &&& (phase is Repeating && reply is Press && (
                    (reply->Press_0 is Ok && reply->Press_0->Ok_0.0@ != seq[phase->Repeating_step as int])
                    || reply->Press_0 == Err::<(ModuleId, u8), WaitError>(WaitError::Timeout)) ==> (
                    next.1 matches Action::SetOutput { id, channel, on } && on && id@ == old(self).modules()[0]@
                    && final(self).phase() == (SimonPhase::BlinkOn { blink: 0, i: 0 })
                    && (next.0@.last() matches Note::RoundOver { score } && score == seq.len() - 1)))
                // Any other failure ends the game.
                &&& (phase is Repeating && reply is Press && reply->Press_0 is Err && !(reply->Press_0->Err_0@ is Timeout) ==> (
                    next.1 matches Action::Finish(Err(ScenarioError::Wait(w))) && w@ == reply->Press_0->Err_0@
                    && final(self).phase() == SimonPhase::Finished))
                // The blink lights every module, waits, switches every module
                // off, waits; three times; then the round is over.
                &&& (phase is BlinkOn && reply is Done ==> {
                    let (blink, i) = (phase->BlinkOn_blink, phase->BlinkOn_i);
                    if i + 1 < old(self).modules().len() {
                        next.1 matches Action::SetOutput { id, channel, on } && on && channel == 0
                        && id@ == old(self).modules()[i + 1]@
                        && final(self).phase() == (SimonPhase::BlinkOn { blink, i: (i + 1) as usize })
                    } else {
                        next.1 == Action::Sleep { ms: BLINK_MS } && final(self).phase() == (SimonPhase::BlinkLit { blink })
                    }
                })
                &&& (phase is BlinkLit && reply is Done ==> (
                    next.1 matches Action::SetOutput { id, channel, on } && !on && channel == 0
                    && id@ == old(self).modules()[0]@
                    && final(self).phase() == (SimonPhase::BlinkOff { blink: phase->BlinkLit_blink, i: 0 })))
                &&& (phase is BlinkOff && reply is Done ==> {
                    let (blink, i) = (phase->BlinkOff_blink, phase->BlinkOff_i);
                    if i + 1 < old(self).modules().len() {
                        next.1 matches Action::SetOutput { id, channel, on } && !on && channel == 0
                        && id@ == old(self).modules()[i + 1]@
                        && final(self).phase() == (SimonPhase::BlinkOff { blink, i: (i + 1) as usize })
                    } else {
                        next.1 == Action::Sleep { ms: BLINK_MS } && final(self).phase() == (SimonPhase::BlinkDark { blink })
                    }
                })
                &&& (phase is BlinkDark && reply is Done && phase->BlinkDark_blink + 1 < BLINKS ==> (
                    next.1 matches Action::SetOutput { id, channel, on } && on && channel == 0
                    && id@ == old(self).modules()[0]@
                    && final(self).phase() == (SimonPhase::BlinkOn { blink: (phase->BlinkDark_blink + 1) as usize, i: 0 })))
                &&& (phase is BlinkDark && reply is Done && phase->BlinkDark_blink + 1 >= BLINKS ==> (
                    next.1 == Action::Finish(Ok(())) && final(self).phase() == SimonPhase::Finished))
                // What the game log is told.
                &&& (phase == SimonPhase::Extending && reply is Random ==> (
                    next.0@.len() == 1 && next.0@[0] == Note::Showing { length: final(self).sequence().len() as usize }))
                &&& (phase is Repeating && reply is Press && reply->Press_0 is Ok
                    && reply->Press_0->Ok_0.0@ == seq[phase->Repeating_step as int] ==> (
                    next.0@ == seq![Note::StepCorrect { step: (phase->Repeating_step + 1) as usize }]))
                &&& (phase is Repeating && reply is Press && reply->Press_0 is Ok
                    && reply->Press_0->Ok_0.0@ != seq[phase->Repeating_step as int] ==> (
                    next.0@.len() == 2 && (next.0@[0] matches Note::StepWrong { step, pressed, expected }
                        && step == phase->Repeating_step + 1 && pressed@ == reply->Press_0->Ok_0.0@
                        && expected@ == seq[phase->Repeating_step as int])))
                &&& (phase is Repeating && reply == Reply::Press(Err(WaitError::Timeout)) ==> (
                    next.0@.len() == 2 && next.0@[0] is NoAnswer))
                &&& !(phase == SimonPhase::Extending || phase is Repeating) ==> next.0@.len() == 0
                &&& next.1 is Finish ==> next.0@.len() == 0
                // A reply of the wrong kind ends the game.
                &&& !simon_expects(phase, reply) ==> (
                    next.1 matches Action::Finish(Err(ScenarioError::UnexpectedReply))
                    && final(self).phase() == SimonPhase::Finished)
            }),
    {
        let phase = self.phase;
        match (phase, reply) {
            (SimonPhase::Resetting, Reply::Done) => {
                self.phase = SimonPhase::Extending;
                (Vec::new(), Action::DrawRandom)
            },
            (SimonPhase::Extending, Reply::Random(r)) => {
                let next = pick(&self.ids, r);
                let ghost before = self.sequence@;
                self.sequence.push(next);
                proof {
                    assert(self.sequence@.map_values(|id: ModuleId| id@).drop_last()
                        == before.map_values(|id: ModuleId| id@));
                }
                self.phase = SimonPhase::ShowOn { i: 0 };
                let notes = vec![Note::Showing { length: self.sequence.len() }];
                (notes, Action::SetOutput { id: self.sequence[0].duplicate(), channel: 0, on: true })
            },
            (SimonPhase::ShowOn { i }, Reply::Done) => {
                self.phase = SimonPhase::ShowLit { i };
                (Vec::new(), Action::Sleep { ms: SHOW_ON_MS })
            },
            (SimonPhase::ShowLit { i }, Reply::Done) => {
                self.phase = SimonPhase::ShowOff { i };
                (Vec::new(), Action::SetOutput { id: self.sequence[i].duplicate(), channel: 0, on: false })
            },
            (SimonPhase::ShowOff { i }, Reply::Done) => {
                self.phase = SimonPhase::ShowGap { i };
                (Vec::new(), Action::Sleep { ms: SHOW_OFF_MS })
            },
            (SimonPhase::ShowGap { i }, Reply::Done) => {
                let n = self.sequence.len();
                assert(i < n);
                if i + 1 < n {
                    self.phase = SimonPhase::ShowOn { i: i + 1 };
                    (Vec::new(), Action::SetOutput { id: self.sequence[i + 1].duplicate(), channel: 0, on: true })
                } else {
                    self.phase = SimonPhase::Repeating { step: 0 };
                    (Vec::new(), Action::NextPress { timeout_ms: PATIENCE_MS })
                }
            },
            (SimonPhase::Repeating { step }, Reply::Press(result)) => {
                let n = self.sequence.len();
                assert(step < n);
                match result {
                    Ok((pressed, _channel)) => {
                        if pressed.same(&self.sequence[step]) {
                            let notes = vec![Note::StepCorrect { step: step + 1 }];
                            if step + 1 < self.sequence.len() {
                                self.phase = SimonPhase::Repeating { step: step + 1 };
                                (notes, Action::NextPress { timeout_ms: PATIENCE_MS })
                            } else {
                                self.phase = SimonPhase::Extending;
                                (notes, Action::DrawRandom)
                            }
                        } else {
                            let expected = self.sequence[step].duplicate();
                            let notes = vec![Note::StepWrong { step: step + 1, pressed, expected }];
                            self.round_over(notes)
                        }
                    },
                    Err(WaitError::Timeout) => {
                        let notes = vec![Note::NoAnswer];
                        self.round_over(notes)
                    },
                    Err(e) => {
                        self.phase = SimonPhase::Finished;
                        (Vec::new(), Action::Finish(Err(ScenarioError::Wait(e))))
                    },
                }
            },
            (SimonPhase::BlinkOn { blink, i }, Reply::Done) => {
                let n = self.ids.len();
                assert(i < n);
                if i + 1 < n {
                    self.phase = SimonPhase::BlinkOn { blink, i: i + 1 };
                    (Vec::new(), Action::SetOutput { id: self.ids[i + 1].duplicate(), channel: 0, on: true })
                } else {
                    self.phase = SimonPhase::BlinkLit { blink };
                    (Vec::new(), Action::Sleep { ms: BLINK_MS })
                }
            },
            (SimonPhase::BlinkLit { blink }, Reply::Done) => {
                self.phase = SimonPhase::BlinkOff { blink, i: 0 };
                (Vec::new(), Action::SetOutput { id: self.ids[0].duplicate(), channel: 0, on: false })
            },
            (SimonPhase::BlinkOff { blink, i }, Reply::Done) => {
                let n = self.ids.len();
                assert(i < n);
                if i + 1 < n {
                    self.phase = SimonPhase::BlinkOff { blink, i: i + 1 };
                    (Vec::new(), Action::SetOutput { id: self.ids[i + 1].duplicate(), channel: 0, on: false })
                } else {
                    self.phase = SimonPhase::BlinkDark { blink };
                    (Vec::new(), Action::Sleep { ms: BLINK_MS })
                }
            },
            (SimonPhase::BlinkDark { blink }, Reply::Done) => {
                if blink + 1 < BLINKS {
                    self.phase = SimonPhase::BlinkOn { blink: blink + 1, i: 0 };
                    (Vec::new(), Action::SetOutput { id: self.ids[0].duplicate(), channel: 0, on: true })
                } else {
                    self.phase = SimonPhase::Finished;
                    (Vec::new(), Action::Finish(Ok(())))
                }
            },
            _ => {
                self.phase = SimonPhase::Finished;
                (Vec::new(), Action::Finish(Err(ScenarioError::UnexpectedReply)))
            },
        }
    }
}

} // verus!
