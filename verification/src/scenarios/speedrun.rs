//! Speedrun: two or more modules light in turn, the player presses each as
//! fast as possible, and every split is reported. A wrong press counts as a
//! miss and does not advance the lap.

use vstd::prelude::*;
use crate::link::{copy_ids, same_ids, ModuleId};
use crate::runtime::{require, refusal_of, serves, Roster, WaitError};
use super::{Action, Note, Reply, ScenarioError, Scoreboard, Timer, PATIENCE_MS};

verus! {

/// How many presses make one speedrun.
pub const SPEEDRUN_LAPS: usize = 10;
/// The pause before the first lap, in milliseconds.
pub const GET_READY_MS: u64 = 2000;
/// On and off time of each celebration blink, in milliseconds.
pub const CELEBRATE_MS: u64 = 120;
/// How many times everything blinks after a finished run.
pub const CELEBRATIONS: usize = 3;
/// The rest after the celebration, before the next run, in milliseconds.
pub const REST_MS: u64 = 3000;

/// The sum of the splits.
pub open spec fn total(splits: Seq<u64>) -> int
    decreases splits.len(),
{
    if splits.len() == 0 { 0 } else { total(splits.drop_last()) + splits.last() }
}

/// The shortest split, or 0 for none.
pub open spec fn best(splits: Seq<u64>) -> u64
    decreases splits.len(),
{
    if splits.len() == 0 {
        0
    } else if splits.len() == 1 {
        splits[0]
    } else {
        let b = best(splits.drop_last());
        if splits.last() < b { splits.last() } else { b }
    }
}

/// The longest split, or 0 for none.
pub open spec fn worst(splits: Seq<u64>) -> u64
    decreases splits.len(),
{
    if splits.len() == 0 {
        0
    } else if splits.len() == 1 {
        splits[0]
    } else {
        let w = worst(splits.drop_last());
        if splits.last() > w { splits.last() } else { w }
    }
}

/// The scoreboard of a run: total, best, average (rounded down, over at
/// least one lap) and worst split, in nanoseconds, and the misses.
pub fn scoreboard(splits: &Vec<u64>, misses: usize) -> (board: Scoreboard)
    ensures
        board.total_ns == total(splits@),
        board.best_ns == best(splits@),
        board.worst_ns == worst(splits@),
        board.average_ns == total(splits@) / (if splits@.len() == 0 { 1 } else { splits@.len() as int }),
        board.misses == misses,
        // The best split is the shortest lap, the worst the longest.
        forall|i: int| 0 <= i < splits@.len() ==> board.best_ns <= #[trigger] splits@[i] && splits@[i] <= board.worst_ns,
        splits@.len() > 0 ==> exists|i: int| 0 <= i < splits@.len() && board.best_ns == #[trigger] splits@[i],
        splits@.len() > 0 ==> exists|i: int| 0 <= i < splits@.len() && board.worst_ns == #[trigger] splits@[i],
        splits@.len() == 0 ==> board.best_ns == 0 && board.worst_ns == 0 && board.total_ns == 0,
        // The average, rounded down, times the laps never exceeds the total,
        // and one more nanosecond per lap would.
        splits@.len() > 0 ==> board.average_ns * splits@.len() <= board.total_ns
            < (board.average_ns + 1) * splits@.len(),
{
    proof {
        law_best_and_worst_bound_the_splits(splits@);
        law_total_adds_the_splits(splits@);
    }
    let mut sum: u128 = 0;
    let mut lo: u64 = 0;
    let mut hi: u64 = 0;
    let mut i: usize = 0;
    while i < splits.len()
        invariant
            i <= splits@.len(),
            sum == total(splits@.take(i as int)),
            sum <= i * 0xffff_ffff_ffff_ffff,
            lo == best(splits@.take(i as int)),
            hi == worst(splits@.take(i as int)),
            lo <= hi,
        decreases splits@.len() - i,
    {
        assert(splits@.take(i + 1).drop_last() == splits@.take(i as int));
        let s = splits[i];
        assert(sum + s <= (i + 1) * 0xffff_ffff_ffff_ffff) by (nonlinear_arith)
            requires sum <= i * 0xffff_ffff_ffff_ffff, s <= 0xffff_ffff_ffff_ffffu64;
        assert((i + 1) * 0xffff_ffff_ffff_ffff <= 0xffff_ffff_ffff_ffff * 0xffff_ffff_ffff_ffffu128) by (nonlinear_arith)
            requires i + 1 <= 0xffff_ffff_ffff_ffff;
        sum = sum + s as u128;
        if i == 0 {
            lo = s;
            hi = s;
        } else {
            if s < lo {
                lo = s;
            }
            if s > hi {
                hi = s;
            }
        }
        i += 1;
    }
    assert(splits@.take(splits@.len() as int) == splits@);
    let laps: u128 = if splits.len() == 0 { 1 } else { splits.len() as u128 };
    let average = sum / laps;
    assert(average <= 0xffff_ffff_ffff_ffff) by {
        lemma_total_bound(splits@);
        if splits@.len() > 0 {
            assert(sum / laps <= 0xffff_ffff_ffff_ffff) by (nonlinear_arith)
                requires sum <= laps * 0xffff_ffff_ffff_ffff, laps > 0;
        }
    }
    if splits.len() > 0 {
        assert(average * laps <= sum < (average + 1) * laps) by (nonlinear_arith)
            requires laps > 0, average == sum / laps;
    }
    Scoreboard { total_ns: sum, best_ns: lo, average_ns: average as u64, worst_ns: hi, misses }
}

/// The best split is the shortest and the worst the longest: each bounds
/// every split and is one of them.
pub proof fn law_best_and_worst_bound_the_splits(splits: Seq<u64>)
    ensures
        forall|i: int| 0 <= i < splits.len() ==> best(splits) <= #[trigger] splits[i] && splits[i] <= worst(splits),
        splits.len() > 0 ==> exists|i: int| 0 <= i < splits.len() && best(splits) == #[trigger] splits[i],
        splits.len() > 0 ==> exists|i: int| 0 <= i < splits.len() && worst(splits) == #[trigger] splits[i],
        splits.len() == 0 ==> best(splits) == 0 && worst(splits) == 0,
    decreases splits.len(),
{
    if splits.len() > 1 {
        let rest = splits.drop_last();
        law_best_and_worst_bound_the_splits(rest);
        assert forall|i: int| 0 <= i < splits.len() implies best(splits) <= #[trigger] splits[i] && splits[i] <= worst(splits) by {
            if i < splits.len() - 1 {
                assert(splits[i] == rest[i]);
            }
        }
        let bi = choose|i: int| 0 <= i < rest.len() && best(rest) == #[trigger] rest[i];
        let wi = choose|i: int| 0 <= i < rest.len() && worst(rest) == #[trigger] rest[i];
        assert(rest[bi] == splits[bi] && rest[wi] == splits[wi]);
        let last = splits.len() - 1;
        if splits.last() < best(rest) {
            assert(best(splits) == splits[last]);
        } else {
            assert(best(splits) == splits[bi]);
        }
        if splits.last() > worst(rest) {
            assert(worst(splits) == splits[last]);
        } else {
            assert(worst(splits) == splits[wi]);
        }
    } else if splits.len() == 1 {
        assert(best(splits) == splits[0] && worst(splits) == splits[0]);
    }
}

/// The total is the sum of the splits: appending a lap adds its split.
pub proof fn law_total_adds_the_splits(splits: Seq<u64>)
    ensures
        splits.len() == 0 ==> total(splits) == 0,
        forall|x: u64| #[trigger] total(splits.push(x)) == total(splits) + x,
        forall|i: int| 0 <= i < splits.len() ==> total(splits) >= #[trigger] splits[i],
    decreases splits.len(),
{
    assert forall|x: u64| #[trigger] total(splits.push(x)) == total(splits) + x by {
        assert(splits.push(x).drop_last() == splits);
    }
    if splits.len() > 0 {
        let rest = splits.drop_last();
        law_total_adds_the_splits(rest);
        lemma_total_bound(rest);
        assert forall|i: int| 0 <= i < splits.len() implies total(splits) >= #[trigger] splits[i] by {
            if i < splits.len() - 1 {
                assert(splits[i] == rest[i]);
            }
        }
    }
}

/// The splits never add up to more than their number times the largest
/// possible split.
proof fn lemma_total_bound(splits: Seq<u64>)
    ensures
        0 <= total(splits) <= splits.len() * 0xffff_ffff_ffff_ffff,
    decreases splits.len(),
{
    if splits.len() > 0 {
        lemma_total_bound(splits.drop_last());
    }
}

/// Consecutive turns around two or more distinct modules land on different
/// modules.
proof fn lemma_turns_alternate(modules: Seq<ModuleId>, lap: int)
    requires
        modules.len() >= 2,
        lap >= 0,
        forall|i: int, j: int| 0 <= i < j < modules.len() ==> (#[trigger] modules[i])@ != (#[trigger] modules[j])@,
    ensures
        modules[lap % (modules.len() as int)]@ != modules[(lap + 1) % (modules.len() as int)]@,
{
    let n = modules.len() as int;
    let q = lap / n;
    let r = lap % n;
    vstd::arithmetic::div_mod::lemma_fundamental_div_mod(lap, n);
    assert(0 <= r < n);
    if r + 1 < n {
        vstd::arithmetic::div_mod::lemma_fundamental_div_mod_converse(lap + 1, n, q, r + 1);
    } else {
        assert(lap + 1 == (q + 1) * n + 0) by (nonlinear_arith)
            requires lap == n * q + r, r + 1 == n;
        vstd::arithmetic::div_mod::lemma_fundamental_div_mod_converse(lap + 1, n, q + 1, 0);
    }
}

/// Where a speedrun is.
#[derive(Debug, Clone, Copy, PartialEq, Eq, Structural)]
pub enum RunPhase {
    /// Every output is being reset.
    Resetting,
    /// The pause before the first lap.
    GettingReady,
    /// The run's stopwatch is being started.
    StartingClock,
    /// The module of lap `lap` is being lit.
    Lighting { lap: usize },
    /// The lap's stopwatch is being started.
    StartingLap { lap: usize },
    /// Waiting for the press that ends lap `lap`.
    Waiting { lap: usize },
    /// The lap's split is being read.
    Splitting { lap: usize },
    /// The lap's module is being switched off.
    Darkening { lap: usize },
    /// The run's total so far is being read.
    Totalling { lap: usize },
    /// Nobody pressed in time; the lap's module is being switched off.
    Abandoning,
    /// Module `i` is being lit for celebration blink `blink`.
    CelebrateOn { blink: usize, i: usize },
    /// Everything is lit for celebration blink `blink`.
    CelebrateLit { blink: usize },
    /// Module `i` is being switched off for celebration blink `blink`.
    CelebrateOff { blink: usize, i: usize },
    /// Everything is dark after celebration blink `blink`.
    CelebrateDark { blink: usize },
    /// The rest before the next run.
    Resting,
    /// The run is over.
    Finished,
}

/// Whether `reply` is the kind of reply a run in `phase` waits to hear.
pub open spec fn run_expects(phase: RunPhase, reply: Reply) -> bool {
    match phase {
        RunPhase::Waiting { .. } => reply is Press,
        RunPhase::Splitting { .. } | RunPhase::Totalling { .. } => reply is Elapsed,
        RunPhase::Finished => false,
        _ => reply is Done,
    }
}

/// A timed run over two or more modules.
pub struct Speedrun {
    ids: Vec<ModuleId>,
    splits: Vec<u64>,
    misses: usize,
    split: u64,
    phase: RunPhase,
}

impl Speedrun {
    /// Laps alternate: lap `k` lights module `k mod n`, so when the modules
    /// are distinct no two consecutive laps light the same one.
    pub proof fn law_laps_alternate(&self, lap: usize)
        requires
            self.modules().len() >= 2,
            lap < usize::MAX,
            forall|i: int, j: int| 0 <= i < j < self.modules().len()
                ==> (#[trigger] self.modules()[i])@ != (#[trigger] self.modules()[j])@,
        ensures
            self.lap_target(lap) != self.lap_target((lap + 1) as usize),
    {
        lemma_turns_alternate(self.modules(), lap as int);
    }

    /// The modules in play.
    pub closed spec fn modules(&self) -> Seq<ModuleId> {
        self.ids@
    }

    /// The splits of the laps finished so far.
    pub closed spec fn splits(&self) -> Seq<u64> {
        self.splits@
    }

    /// The split read for the lap being finished.
    pub closed spec fn pending_split(&self) -> u64 {
        self.split
    }

    /// Wrong presses so far.
    pub closed spec fn misses(&self) -> usize {
        self.misses
    }

    /// What the run is waiting to hear about.
    pub closed spec fn phase(&self) -> RunPhase {
        self.phase
    }

    /// The module lap `lap` lights: the modules in turn.
    pub open spec fn lap_target(&self, lap: usize) -> Seq<char> {
        self.modules()[(lap as int) % (self.modules().len() as int)]@
    }

    /// The run is well formed.
    pub closed spec fn wf(&self) -> bool {
        &&& self.ids@.len() >= 2
        &&& self.splits@.len() <= SPEEDRUN_LAPS
        &&& match self.phase {
            RunPhase::Lighting { lap } | RunPhase::StartingLap { lap } | RunPhase::Waiting { lap }
            | RunPhase::Splitting { lap } | RunPhase::Darkening { lap } => lap < SPEEDRUN_LAPS && self.splits@.len() == lap,
            RunPhase::Totalling { lap } => lap < SPEEDRUN_LAPS && self.splits@.len() == lap + 1,
            RunPhase::CelebrateOn { blink, i } | RunPhase::CelebrateOff { blink, i } => blink < CELEBRATIONS && i < self.ids@.len(),
            RunPhase::CelebrateLit { blink } | RunPhase::CelebrateDark { blink } => blink < CELEBRATIONS,
            RunPhase::Resetting | RunPhase::GettingReady | RunPhase::StartingClock => self.splits@.len() == 0,
            _ => true,
        }
    }

    /// Start a run: every module must have an input and an output, and there
    /// must be at least two of them to move between.
    pub fn start(modules: &Roster) -> (started: Result<(Speedrun, Action), ScenarioError>)
        ensures
            started matches Ok((run, action)) ==> {
                &&& run.wf()
                &&& same_ids(run.modules(), modules.id_list())
                &&& run.splits().len() == 0
                &&& run.misses() == 0
                &&& run.phase() == RunPhase::Resetting
                &&& action is ResetAll
            },
            started is Ok <==> (modules.id_list().len() >= 2 && forall|i: int| 0 <= i < modules.id_list().len()
                ==> #[trigger] serves(*modules, modules.id_list()[i]@, None, 1, 1)),
            started matches Err(ScenarioError::Require(r)) ==> exists|k: int|
                0 <= k < modules.id_list().len() && refusal_of(*modules, r, modules.id_list()[k]@, None, 1, 1)
                && !#[trigger] serves(*modules, modules.id_list()[k]@, None, 1, 1)
                && forall|j: int| 0 <= j < k ==> #[trigger] serves(*modules, modules.id_list()[j]@, None, 1, 1),
            started is Err ==> started matches Err(ScenarioError::Require(_)) || started matches Err(ScenarioError::TooFewModules { .. }),
            (forall|i: int| 0 <= i < modules.id_list().len() ==> #[trigger] serves(*modules, modules.id_list()[i]@, None, 1, 1))
                && modules.id_list().len() < 2 ==> (
                started matches Err(ScenarioError::TooFewModules { found }) && found == modules.id_list().len()),
    {
        let ids = modules.ids();
        let mut i: usize = 0;
        while i < ids.len()
            invariant
                ids@ == modules.id_list(),
                i <= ids@.len(),
                forall|k: int| 0 <= k < i ==> #[trigger] serves(*modules, modules.id_list()[k]@, None, 1, 1),
            decreases ids@.len() - i,
        {
            match require(modules, &ids[i], 1, 1) {
                Err(e) => return Err(ScenarioError::Require(e)),
                Ok(()) => {},
            }
            i += 1;
        }
        if ids.len() < 2 {
            return Err(ScenarioError::TooFewModules { found: ids.len() });
        }
        let run = Speedrun { ids: copy_ids(ids), splits: Vec::new(), misses: 0, split: 0, phase: RunPhase::Resetting };
        Ok((run, Action::ResetAll))
    }

    /// Light the module of lap `lap`.
    fn light(&mut self, lap: usize) -> (next: Action)
        requires
            old(self).ids@.len() >= 2,
        ensures
            final(self).ids@ == old(self).ids@,
            final(self).splits@ == old(self).splits@,
            final(self).misses == old(self).misses,
            final(self).split == old(self).split,
            final(self).phase == (RunPhase::Lighting { lap }),
            next matches Action::SetOutput { id, channel, on } && on && channel == 0
                && id@ == old(self).ids@[(lap as int) % (old(self).ids@.len() as int)]@,
    {
        self.phase = RunPhase::Lighting { lap };
        let n = self.ids.len();
        Action::SetOutput { id: self.ids[lap % n].duplicate(), channel: 0, on: true }
    }

    /// Hear the reply to the last action, and say what to do next.
    ///
    /// A reply of the wrong kind for the pending action ends the run with
    /// [`ScenarioError::UnexpectedReply`].
    pub fn step(&mut self, reply: Reply) -> (next: (Vec<Note>, Action))
        requires
            old(self).wf(),
        ensures
            final(self).wf(),
            same_ids(final(self).modules(), old(self).modules()),
            ({
                let phase = old(self).phase();
                &&& phase == RunPhase::Resetting && reply is Done ==> (
                    next.1 == Action::Sleep { ms: GET_READY_MS } && final(self).phase() == RunPhase::GettingReady)
                &&& phase == RunPhase::GettingReady && reply is Done ==> (
                    next.1 == Action::StartTimer(Timer::Run) && final(self).phase() == RunPhase::StartingClock)
                // Laps alternate: lap `k` lights module `k mod n`.
                &&& phase == RunPhase::StartingClock && reply is Done ==> (
                    next.1 matches Action::SetOutput { id, channel, on } && on && id@ == old(self).lap_target(0)
                    && final(self).phase() == (RunPhase::Lighting { lap: 0 }))
                &&& (phase is Lighting && reply is Done ==> (
                    next.1 == Action::StartTimer(Timer::Lap)
                    && final(self).phase() == (RunPhase::StartingLap { lap: phase->Lighting_lap })))
                &&& (phase is StartingLap && reply is Done ==> (
                    next.1 == Action::NextPress { timeout_ms: PATIENCE_MS }
                    && final(self).phase() == (RunPhase::Waiting { lap: phase->StartingLap_lap })))
                // The right module ends the lap.
                &&& (phase is Waiting && reply is Press && reply->Press_0 is Ok
                    && reply->Press_0->Ok_0.0@ == old(self).lap_target(phase->Waiting_lap) ==> (
                    next.1 == Action::ReadTimer(Timer::Lap)
                    && final(self).phase() == (RunPhase::Splitting { lap: phase->Waiting_lap })))
                // A wrong module is a miss, and the lap goes on.
                &&& (phase is Waiting && reply is Press && reply->Press_0 is Ok
                    && reply->Press_0->Ok_0.0@ != old(self).lap_target(phase->Waiting_lap) ==> (
                    next.1 == Action::NextPress { timeout_ms: PATIENCE_MS }
                    && final(self).phase() == phase
                    && final(self).splits() == old(self).splits()
                    && final(self).misses() == (if old(self).misses() == usize::MAX { usize::MAX } else { (old(self).misses() + 1) as usize })))
                // No press in time abandons the run.
                &&& (phase is Waiting && reply is Press && reply->Press_0 == Err::<(ModuleId, u8), WaitError>(WaitError::Timeout) ==> (
                    next.1 matches Action::SetOutput { id, on, .. } && !on && id@ == old(self).lap_target(phase->Waiting_lap)
                    && final(self).phase() == RunPhase::Abandoning))
                &&& (phase is Waiting && reply is Press && reply->Press_0 is Err && !(reply->Press_0->Err_0@ is Timeout) ==> (
                    next.1 matches Action::Finish(Err(ScenarioError::Wait(w))) && w@ == reply->Press_0->Err_0@))
                &&& (phase is Splitting && reply is Elapsed ==> (
                    (next.1 matches Action::SetOutput { id, on, .. } && !on && id@ == old(self).lap_target(phase->Splitting_lap)
                    && final(self).phase() == (RunPhase::Darkening { lap: phase->Splitting_lap }))
                    && final(self).pending_split() == reply->Elapsed_0))
                // A finished lap records its split.
                &&& (phase is Darkening && reply is Done ==> (
                    next.1 == Action::ReadTimer(Timer::Run)
                    && final(self).splits() == old(self).splits().push(old(self).pending_split())
                    && final(self).phase() == (RunPhase::Totalling { lap: phase->Darkening_lap })))
                &&& (phase is Totalling && reply is Elapsed && phase->Totalling_lap + 1 < SPEEDRUN_LAPS ==> (
                    next.1 matches Action::SetOutput { id, on, .. } && on
                    && id@ == old(self).lap_target((phase->Totalling_lap + 1) as usize)
                    && final(self).phase() == (RunPhase::Lighting { lap: (phase->Totalling_lap + 1) as usize })))
                // After the last lap comes the scoreboard.
                &&& (phase is Totalling && reply is Elapsed && phase->Totalling_lap + 1 >= SPEEDRUN_LAPS ==> (
                    next.0@.len() == 2 && next.0@[1] == Note::Complete { board: Scoreboard {
                        total_ns: total(old(self).splits()) as u128,
                        best_ns: best(old(self).splits()),
                        average_ns: (total(old(self).splits()) / (old(self).splits().len() as int)) as u64,
                        worst_ns: worst(old(self).splits()),
                        misses: old(self).misses(),
                    } }
                    && final(self).phase() == (RunPhase::CelebrateOn { blink: 0, i: 0 })))
                &&& phase == RunPhase::Abandoning && reply is Done ==> (
                    next.1 == Action::Finish(Ok(())) && final(self).phase() == RunPhase::Finished)
                &&& phase == RunPhase::Resting && reply is Done ==> (
                    next.1 == Action::Finish(Ok(())) && final(self).phase() == RunPhase::Finished)
                // The celebration lights every module, waits, switches every
                // module off, waits; three times; then a rest.
                &&& (phase is CelebrateOn && reply is Done ==> {
                    let (blink, i) = (phase->CelebrateOn_blink, phase->CelebrateOn_i);
                    if i + 1 < old(self).modules().len() {
                        next.1 matches Action::SetOutput { id, channel, on } && on && channel == 0
                        && id@ == old(self).modules()[i + 1]@
                        && final(self).phase() == (RunPhase::CelebrateOn { blink, i: (i + 1) as usize })
                    } else {
                        next.1 == Action::Sleep { ms: CELEBRATE_MS } && final(self).phase() == (RunPhase::CelebrateLit { blink })
                    }
                })
                &&& (phase is CelebrateLit && reply is Done ==> (
                    next.1 matches Action::SetOutput { id, channel, on } && !on && channel == 0
                    && id@ == old(self).modules()[0]@
                    && final(self).phase() == (RunPhase::CelebrateOff { blink: phase->CelebrateLit_blink, i: 0 })))
                &&& (phase is CelebrateOff && reply is Done ==> {
                    let (blink, i) = (phase->CelebrateOff_blink, phase->CelebrateOff_i);
                    if i + 1 < old(self).modules().len() {
                        next.1 matches Action::SetOutput { id, channel, on } && !on && channel == 0
                        && id@ == old(self).modules()[i + 1]@
                        && final(self).phase() == (RunPhase::CelebrateOff { blink, i: (i + 1) as usize })
                    } else {
                        next.1 == Action::Sleep { ms: CELEBRATE_MS } && final(self).phase() == (RunPhase::CelebrateDark { blink })
                    }
                })
                &&& (phase is CelebrateDark && reply is Done ==> (
                    if phase->CelebrateDark_blink + 1 < CELEBRATIONS {
                        next.1 matches Action::SetOutput { id, channel, on } && on && channel == 0
                        && id@ == old(self).modules()[0]@
                        && final(self).phase() == (RunPhase::CelebrateOn { blink: (phase->CelebrateDark_blink + 1) as usize, i: 0 })
                    } else {
                        next.1 == Action::Sleep { ms: REST_MS } && final(self).phase() == RunPhase::Resting
                    }))
                // What the game log is told.
                &&& phase == RunPhase::Resetting && reply is Done ==> (
                    next.0@ == seq![Note::RunStarting { laps: SPEEDRUN_LAPS, modules: old(self).modules().len() as usize }])
                &&& (phase is Waiting && reply is Press && reply->Press_0 is Ok
                    && reply->Press_0->Ok_0.0@ != old(self).lap_target(phase->Waiting_lap) ==> (
                    next.0@.len() == 1 && (next.0@[0] matches Note::Miss { pressed, wanted }
                        && pressed@ == reply->Press_0->Ok_0.0@ && wanted@ == old(self).lap_target(phase->Waiting_lap))))
                &&& (phase is Waiting && reply == Reply::Press(Err(WaitError::Timeout)) ==> next.0@ == seq![Note::Abandoned])
                &&& (phase is Totalling && reply is Elapsed ==> (
                    next.0@.len() >= 1 && next.0@[0] == Note::Lap {
                        lap: (phase->Totalling_lap + 1) as usize,
                        split_ns: old(self).pending_split(),
                        total_ns: reply->Elapsed_0,
                    }
                    && (phase->Totalling_lap + 1 < SPEEDRUN_LAPS ==> next.0@.len() == 1)))
                &&& !(phase == RunPhase::Resetting || phase is Waiting || phase is Totalling) ==> next.0@.len() == 0
                &&& next.1 is Finish && !(phase is Waiting) ==> next.0@.len() == 0
                // Only a finished lap records a split, only a wrong press
                // counts a miss, and only a stopwatch reading sets the split.
                &&& !(phase is Darkening && reply is Done) ==> final(self).splits() == old(self).splits()
                &&& !(phase is Waiting && reply is Press && reply->Press_0 is Ok
                    && reply->Press_0->Ok_0.0@ != old(self).lap_target(phase->Waiting_lap)) ==> final(self).misses() == old(self).misses()
                &&& !(phase is Splitting && reply is Elapsed) ==> final(self).pending_split() == old(self).pending_split()
                &&& (phase is Waiting && reply is Press && reply->Press_0 is Err && !(reply->Press_0->Err_0@ is Timeout) ==> (
                    final(self).phase() == RunPhase::Finished))
                // A reply of the wrong kind ends the run.
                &&& !run_expects(phase, reply) ==> (
                    next.1 matches Action::Finish(Err(ScenarioError::UnexpectedReply))
                    && final(self).phase() == RunPhase::Finished)
            }),
    {
        let phase = self.phase;
        match (phase, reply) {
            (RunPhase::Resetting, Reply::Done) => {
                self.phase = RunPhase::GettingReady;
                let notes = vec![Note::RunStarting { laps: SPEEDRUN_LAPS, modules: self.ids.len() }];
                (notes, Action::Sleep { ms: GET_READY_MS })
            },
            (RunPhase::GettingReady, Reply::Done) => {
                self.phase = RunPhase::StartingClock;
                (Vec::new(), Action::StartTimer(Timer::Run))
            },
            (RunPhase::StartingClock, Reply::Done) => {
                let action = self.light(0);
                (Vec::new(), action)
            },
            (RunPhase::Lighting { lap }, Reply::Done) => {
                self.phase = RunPhase::StartingLap { lap };
                (Vec::new(), Action::StartTimer(Timer::Lap))
            },
            (RunPhase::StartingLap { lap }, Reply::Done) => {
                self.phase = RunPhase::Waiting { lap };
                (Vec::new(), Action::NextPress { timeout_ms: PATIENCE_MS })
            },
            (RunPhase::Waiting { lap }, Reply::Press(result)) => {
                let n = self.ids.len();
                match result {
                    Ok((pressed, _channel)) => {
                        if pressed.same(&self.ids[lap % n]) {
                            self.phase = RunPhase::Splitting { lap };
                            (Vec::new(), Action::ReadTimer(Timer::Lap))
                        } else {
                            self.misses = self.misses.saturating_add(1);
                            let notes = vec![Note::Miss { pressed, wanted: self.ids[lap % n].duplicate() }];
                            (notes, Action::NextPress { timeout_ms: PATIENCE_MS })
                        }
                    },
                    Err(WaitError::Timeout) => {
                        self.phase = RunPhase::Abandoning;
                        let notes = vec![Note::Abandoned];
                        (notes, Action::SetOutput { id: self.ids[lap % n].duplicate(), channel: 0, on: false })
                    },
                    Err(e) => {
                        self.phase = RunPhase::Finished;
                        (Vec::new(), Action::Finish(Err(ScenarioError::Wait(e))))
                    },
                }
            },
            (RunPhase::Splitting { lap }, Reply::Elapsed(split)) => {
                self.split = split;
                self.phase = RunPhase::Darkening { lap };
                let n = self.ids.len();
                (Vec::new(), Action::SetOutput { id: self.ids[lap % n].duplicate(), channel: 0, on: false })
            },
            (RunPhase::Darkening { lap }, Reply::Done) => {
                self.splits.push(self.split);
                self.phase = RunPhase::Totalling { lap };
                (Vec::new(), Action::ReadTimer(Timer::Run))
            },
            (RunPhase::Totalling { lap }, Reply::Elapsed(total_ns)) => {
                let mut notes = vec![Note::Lap { lap: lap + 1, split_ns: self.split, total_ns }];
                if lap + 1 < SPEEDRUN_LAPS {
                    let action = self.light(lap + 1);
                    (notes, action)
                } else {
                    notes.push(Note::Complete { board: scoreboard(&self.splits, self.misses) });
                    self.phase = RunPhase::CelebrateOn { blink: 0, i: 0 };
                    (notes, Action::SetOutput { id: self.ids[0].duplicate(), channel: 0, on: true })
                }
            },
            (RunPhase::Abandoning, Reply::Done) => {
                self.phase = RunPhase::Finished;
                (Vec::new(), Action::Finish(Ok(())))
            },
            (RunPhase::CelebrateOn { blink, i }, Reply::Done) => {
                let n = self.ids.len();
                if i + 1 < n {
                    self.phase = RunPhase::CelebrateOn { blink, i: i + 1 };
                    (Vec::new(), Action::SetOutput { id: self.ids[i + 1].duplicate(), channel: 0, on: true })
                } else {
                    self.phase = RunPhase::CelebrateLit { blink };
                    (Vec::new(), Action::Sleep { ms: CELEBRATE_MS })
                }
            },
            (RunPhase::CelebrateLit { blink }, Reply::Done) => {
                self.phase = RunPhase::CelebrateOff { blink, i: 0 };
                (Vec::new(), Action::SetOutput { id: self.ids[0].duplicate(), channel: 0, on: false })
            },
            (RunPhase::CelebrateOff { blink, i }, Reply::Done) => {
                let n = self.ids.len();
                if i + 1 < n {
                    self.phase = RunPhase::CelebrateOff { blink, i: i + 1 };
                    (Vec::new(), Action::SetOutput { id: self.ids[i + 1].duplicate(), channel: 0, on: false })
                } else {
                    self.phase = RunPhase::CelebrateDark { blink };
                    (Vec::new(), Action::Sleep { ms: CELEBRATE_MS })
                }
            },
            (RunPhase::CelebrateDark { blink }, Reply::Done) => {
                if blink + 1 < CELEBRATIONS {
                    self.phase = RunPhase::CelebrateOn { blink: blink + 1, i: 0 };
                    (Vec::new(), Action::SetOutput { id: self.ids[0].duplicate(), channel: 0, on: true })
                } else {
                    self.phase = RunPhase::Resting;
                    (Vec::new(), Action::Sleep { ms: REST_MS })
                }
            },
            (RunPhase::Resting, Reply::Done) => {
                self.phase = RunPhase::Finished;
                (Vec::new(), Action::Finish(Ok(())))
            },
            _ => {
                self.phase = RunPhase::Finished;
                (Vec::new(), Action::Finish(Err(ScenarioError::UnexpectedReply)))
            },
        }
    }
}

} // verus!
