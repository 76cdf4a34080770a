//! Arcade: pay to play. A coin buys rounds of whack-a-mole on the button
//! modules; the coin slot and the buttons are told apart by what each module
//! said it was.

use vstd::prelude::*;
use crate::link::{same_ids, ModuleId};
use crate::proto::Role;
use crate::runtime::{refusal_of, require_role, serves, Roster, WaitError};
use super::{pick, Action, Note, Reply, ScenarioError, PATIENCE_MS};

verus! {

/// How many pulses the acceptor emits per credit: venue policy.
pub const PULSES_PER_CREDIT: u8 = 1;

/// How long attract mode waits for someone to pay, in milliseconds.
pub const ATTRACT_PATIENCE_MS: u64 = 600_000;

/// Credits a coin of `pulses` pulses buys: whole credits only, rounded down.
pub open spec fn credits_for(pulses: u8) -> u8 {
    (pulses / PULSES_PER_CREDIT) as u8
}

/// A coin buys whole credits and nothing is capped: the credits a coin of
/// `pulses` pulses buys cost no more than the coin, and one credit more
/// would cost more than it.
pub proof fn law_a_coin_buys_whole_credits(pulses: u8)
    ensures
        credits_for(pulses) * PULSES_PER_CREDIT <= pulses < (credits_for(pulses) + 1) * PULSES_PER_CREDIT,
        credits_for(pulses) == 0 <==> pulses < PULSES_PER_CREDIT,
{
}

/// The first of `ids` that never described itself, if any.
pub open spec fn first_undescribed(roster: Roster, ids: Seq<ModuleId>) -> Option<int>
    decreases ids.len(),
{
    if ids.len() == 0 {
        None
    } else {
        match first_undescribed(roster, ids.drop_last()) {
            Some(k) => Some(k),
            None => if roster.described(ids.last()@) is None { Some(ids.len() - 1) } else { None },
        }
    }
}

/// The coin slot among `ids`: the last module that described itself as a
/// coin acceptor.
pub open spec fn coin_slot(roster: Roster, ids: Seq<ModuleId>) -> Option<Seq<char>>
    decreases ids.len(),
{
    if ids.len() == 0 {
        None
    } else if roster.described(ids.last()@) matches Some(d) && d.role == Role::Coin {
        Some(ids.last()@)
    } else {
        coin_slot(roster, ids.drop_last())
    }
}

/// The buttons among `ids`, in order: the modules that described themselves
/// as buttons.
pub open spec fn button_ids(roster: Roster, ids: Seq<ModuleId>) -> Seq<Seq<char>>
    decreases ids.len(),
{
    if ids.len() == 0 {
        seq![]
    } else {
        let before = button_ids(roster, ids.drop_last());
        if roster.described(ids.last()@) matches Some(d) && d.role == Role::Button {
            before.push(ids.last()@)
        } else {
            before
        }
    }
}

/// Where an arcade session is.
#[derive(Debug, Clone, Copy, PartialEq, Eq, Structural)]
pub enum ArcadePhase {
    /// Every output is being reset.
    Resetting,
    /// Attract mode: waiting to be paid.
    AwaitingCoin,
    /// The button for credit `credit` is being drawn.
    Drawing { credit: u8 },
    /// The button for credit `credit` is being lit.
    Lighting { credit: u8 },
    /// Waiting for the press that uses credit `credit`.
    Waiting { credit: u8 },
    /// The button of credit `credit` is being switched off.
    Darkening { credit: u8 },
    /// A module was lost mid-credit; its button is being switched off before
    /// the session ends.
    Failing,
    /// The session is over.
    Finished,
}

/// Whether `reply` is the kind of reply a session in `phase` waits to hear.
pub open spec fn arcade_expects(phase: ArcadePhase, reply: Reply) -> bool {
    match phase {
        ArcadePhase::AwaitingCoin => reply is Coin,
        ArcadePhase::Drawing { .. } => reply is Random,
        ArcadePhase::Waiting { .. } => reply is PressOn,
        ArcadePhase::Finished => false,
        _ => reply is Done,
    }
}

/// Where a session playing `credits` credits goes from a credit `phase` on
/// `reply`: the button is drawn, lit, waited on and switched off, then the
/// next credit is drawn, or attract mode resumes after the last; a loss
/// mid-credit fails the session, and a reply of the wrong kind ends it.
pub open spec fn credit_step(credits: u8, phase: ArcadePhase, reply: Reply, next: ArcadePhase) -> bool {
    match phase {
        ArcadePhase::Drawing { credit } =>
            next == if reply is Random { ArcadePhase::Lighting { credit } } else { ArcadePhase::Finished },
        ArcadePhase::Lighting { credit } =>
            next == if reply is Done { ArcadePhase::Waiting { credit } } else { ArcadePhase::Finished },
        ArcadePhase::Waiting { credit } => next == if !(reply is PressOn) {
            ArcadePhase::Finished
        } else if reply->PressOn_0 is Ok || reply->PressOn_0->Err_0@ is Timeout {
            ArcadePhase::Darkening { credit }
        } else {
            ArcadePhase::Failing
        },
        ArcadePhase::Darkening { credit } => next == if !(reply is Done) {
            ArcadePhase::Finished
        } else if credit < credits {
            ArcadePhase::Drawing { credit: (credit + 1) as u8 }
        } else {
            ArcadePhase::AwaitingCoin
        },
        _ => true,
    }
}

/// The phase `i` steps into an uninterrupted game of credits: each credit
/// is drawn, lit, waited on and switched off in turn.
pub open spec fn credit_phase(i: int) -> ArcadePhase {
    let credit = (i / 4 + 1) as u8;
    if i % 4 == 0 {
        ArcadePhase::Drawing { credit }
    } else if i % 4 == 1 {
        ArcadePhase::Lighting { credit }
    } else if i % 4 == 2 {
        ArcadePhase::Waiting { credit }
    } else {
        ArcadePhase::Darkening { credit }
    }
}

/// Counting four steps at a time.
proof fn lemma_quarters(i: int)
    requires
        i >= 0,
    ensures
        0 <= i % 4 < 4,
        i == 4 * (i / 4) + i % 4,
        i % 4 < 3 ==> (i + 1) / 4 == i / 4 && (i + 1) % 4 == i % 4 + 1,
        i % 4 == 3 ==> (i + 1) / 4 == i / 4 + 1 && (i + 1) % 4 == 0,
{
    vstd::arithmetic::div_mod::lemma_fundamental_div_mod(i, 4);
    let (q, r) = (i / 4, i % 4);
    if r < 3 {
        vstd::arithmetic::div_mod::lemma_fundamental_div_mod_converse(i + 1, 4, q, r + 1);
    } else {
        vstd::arithmetic::div_mod::lemma_fundamental_div_mod_converse(i + 1, 4, q + 1, 0);
    }
}

/// A coin worth `credits` credits plays exactly that many rounds: from the
/// first credit's draw, a session that plays on without failing reaches
/// attract mode again only after `4 * credits` steps, having lit a button
/// once for each credit, in order.
pub proof fn law_a_coin_buys_its_credits(credits: u8, phases: Seq<ArcadePhase>, replies: Seq<Reply>)
    requires
        credits >= 1,
        phases.len() == replies.len() + 1,
        phases[0] == (ArcadePhase::Drawing { credit: 1 }),
        phases.last() == ArcadePhase::AwaitingCoin,
        forall|i: int| 0 <= i < replies.len() ==> #[trigger] credit_step(credits, phases[i], replies[i], phases[i + 1]),
        forall|i: int| 0 < i < replies.len() ==> {
            &&& #[trigger] phases[i] != ArcadePhase::AwaitingCoin
            &&& phases[i] != ArcadePhase::Failing
            &&& phases[i] != ArcadePhase::Finished
        },
    ensures
        replies.len() == 4 * credits,
        forall|k: int| 1 <= k <= credits ==> #[trigger] phases[4 * (k - 1) + 1] == (ArcadePhase::Lighting { credit: k as u8 }),
{
    let n = replies.len() as int;
    // Every phase before the last is the uninterrupted game's, on a credit
    // not past the last.
    assert forall|i: int| 0 <= i < n implies #[trigger] phases[i] == credit_phase(i) && i / 4 + 1 <= credits by {
        lemma_walk(credits, phases, replies, i);
    }
    assert(n >= 1);
    lemma_quarters(n - 1);
    assert(credit_step(credits, phases[n - 1], replies[n - 1], phases[(n - 1) + 1]));
    assert(phases[n - 1] == credit_phase(n - 1));
    assert(n - 1 == 4 * (credits - 1) + 3);
    assert forall|k: int| 1 <= k <= credits implies #[trigger] phases[4 * (k - 1) + 1] == (ArcadePhase::Lighting { credit: k as u8 }) by {
        let i = 4 * (k - 1) + 1;
        assert(phases[i] == credit_phase(i));
        vstd::arithmetic::div_mod::lemma_fundamental_div_mod_converse(i, 4, k - 1, 1);
    }
}

/// The walk of [`law_a_coin_buys_its_credits`], one step at a time.
proof fn lemma_walk(credits: u8, phases: Seq<ArcadePhase>, replies: Seq<Reply>, i: int)
    requires
        credits >= 1,
        phases.len() == replies.len() + 1,
        phases[0] == (ArcadePhase::Drawing { credit: 1 }),
        forall|j: int| 0 <= j < replies.len() ==> #[trigger] credit_step(credits, phases[j], replies[j], phases[j + 1]),
        forall|j: int| 0 < j < replies.len() ==> {
            &&& #[trigger] phases[j] != ArcadePhase::AwaitingCoin
            &&& phases[j] != ArcadePhase::Failing
            &&& phases[j] != ArcadePhase::Finished
        },
        0 <= i < replies.len(),
    ensures
        phases[i] == credit_phase(i),
        i / 4 + 1 <= credits,
    decreases i,
{
    if i == 0 {
        assert(credit_phase(0) == (ArcadePhase::Drawing { credit: 1 }));
    } else {
        lemma_walk(credits, phases, replies, i - 1);
        lemma_quarters(i - 1);
        assert(credit_step(credits, phases[i - 1], replies[i - 1], phases[(i - 1) + 1]));
        assert(phases[i] != ArcadePhase::AwaitingCoin);
    }
}

/// A pay-to-play session.
pub struct Arcade {
    slot: ModuleId,
    buttons: Vec<ModuleId>,
    target: ModuleId,
    credits: u8,
    failure: Option<WaitError>,
    phase: ArcadePhase,
}

impl Arcade {
    /// The coin slot.
    pub closed spec fn slot(&self) -> Seq<char> {
        self.slot@
    }

    /// The buttons to play with.
    pub closed spec fn buttons(&self) -> Seq<Seq<char>> {
        self.buttons@.map_values(|id: ModuleId| id@)
    }

    /// The button of the current credit.
    pub closed spec fn target(&self) -> Seq<char> {
        self.target@
    }

    /// Credits bought by the last coin.
    pub closed spec fn credits(&self) -> u8 {
        self.credits
    }

    /// What the session is waiting to hear about.
    pub closed spec fn phase(&self) -> ArcadePhase {
        self.phase
    }

    /// Why the session is failing, once a module was lost mid-credit.
    pub closed spec fn failure(&self) -> Option<WaitError> {
        self.failure
    }

    /// The module this session has switched on and not yet off.
    pub open spec fn lit(&self) -> Option<Seq<char>> {
        match self.phase() {
            ArcadePhase::Lighting { .. } | ArcadePhase::Waiting { .. } => Some(self.target()),
            _ => None,
        }
    }

    /// The session is well formed.
    pub closed spec fn wf(&self) -> bool {
        &&& self.buttons@.len() > 0
        &&& match self.phase {
            ArcadePhase::Drawing { credit } | ArcadePhase::Lighting { credit } | ArcadePhase::Waiting { credit }
            | ArcadePhase::Darkening { credit } => 1 <= credit <= self.credits,
            ArcadePhase::Failing => self.failure is Some,
            _ => true,
        }
    }

    /// Sort the modules into the coin slot and the buttons, check each can
    /// do its part, then reset every output.
    pub fn start(modules: &Roster) -> (started: Result<(Arcade, Action), ScenarioError>)
        ensures
            ({
                let ids = modules.id_list();
                &&& first_undescribed(*modules, ids) matches Some(k) ==> (
                    started matches Err(ScenarioError::Undescribed { id }) && id@ == ids[k]@)
                &&& first_undescribed(*modules, ids) is None && coin_slot(*modules, ids) is None ==> (
                    started matches Err(ScenarioError::NoCoinAcceptor))
                &&& first_undescribed(*modules, ids) is None && coin_slot(*modules, ids) is Some
                    && button_ids(*modules, ids).len() == 0 ==> (started matches Err(ScenarioError::NoButtons))
                // Otherwise the coin slot is checked first, then the buttons
                // in order; the first that cannot take part is the one refused.
                &&& (first_undescribed(*modules, ids) is None && coin_slot(*modules, ids) is Some
                    && button_ids(*modules, ids).len() > 0 && started is Err ==> (
                    started matches Err(ScenarioError::Require(r)) && {
                        let slot = coin_slot(*modules, ids)->0;
                        let buttons = button_ids(*modules, ids);
                        ||| !serves(*modules, slot, Some(Role::Coin), 1, 0) && refusal_of(*modules, r, slot, Some(Role::Coin), 1, 0)
                        ||| serves(*modules, slot, Some(Role::Coin), 1, 0) && exists|k: int| 0 <= k < buttons.len()
                            && refusal_of(*modules, r, buttons[k], Some(Role::Button), 1, 1)
                            && !#[trigger] serves(*modules, buttons[k], Some(Role::Button), 1, 1)
                            && forall|j: int| 0 <= j < k ==> #[trigger] serves(*modules, buttons[j], Some(Role::Button), 1, 1)
                    }))
                &&& started matches Ok((game, action)) ==> {
                    &&& game.wf()
                    &&& first_undescribed(*modules, ids) is None
                    &&& coin_slot(*modules, ids) == Some(game.slot())
                    &&& game.buttons() == button_ids(*modules, ids)
                    &&& serves(*modules, game.slot(), Some(Role::Coin), 1, 0)
                    &&& forall|i: int| 0 <= i < game.buttons().len()
                        ==> #[trigger] serves(*modules, game.buttons()[i], Some(Role::Button), 1, 1)
                    &&& game.phase() == ArcadePhase::Resetting
                    &&& game.lit() is None
                    &&& action is ResetAll
                }
            }),
    {
        let ids = modules.ids();
        let mut slot: Option<ModuleId> = None;
        let mut buttons: Vec<ModuleId> = Vec::new();
        let mut i: usize = 0;
        while i < ids.len()
            invariant
                ids@ == modules.id_list(),
                i <= ids@.len(),
                first_undescribed(*modules, ids@.take(i as int)) is None,
                match slot {
                    Some(s) => coin_slot(*modules, ids@.take(i as int)) == Some(s@),
                    None => coin_slot(*modules, ids@.take(i as int)) is None,
                },
                buttons@.map_values(|id: ModuleId| id@) == button_ids(*modules, ids@.take(i as int)),
            decreases ids@.len() - i,
        {
            let ghost prefix = ids@.take(i + 1);
            assert(prefix.drop_last() == ids@.take(i as int));
            assert(prefix.last() == ids@[i as int]);
            match modules.descriptor(&ids[i]) {
                Some(d) => {
                    match d.role {
                        Role::Coin => {
                            slot = Some(ids[i].duplicate());
                        },
                        Role::Button => {
                            let ghost before = buttons@;
                            buttons.push(ids[i].duplicate());
                            assert(buttons@.map_values(|id: ModuleId| id@)
                                == before.map_values(|id: ModuleId| id@).push(ids@[i as int]@));
                        },
                    }
                },
                None => {
                    proof { lemma_undescribed_is_first(*modules, ids@, i as int); }
                    return Err(ScenarioError::Undescribed { id: ids[i].duplicate() });
                },
            }
            i += 1;
        }
        assert(ids@.take(ids@.len() as int) == ids@);
        let slot = match slot {
            Some(s) => s,
            None => return Err(ScenarioError::NoCoinAcceptor),
        };
        if buttons.len() == 0 {
            return Err(ScenarioError::NoButtons);
        }
        assert(coin_slot(*modules, ids@)->0 == slot@);
        match require_role(modules, &slot, Some(Role::Coin), 1, 0) {
            Err(e) => return Err(ScenarioError::Require(e)),
            Ok(()) => {},
        }
        let mut j: usize = 0;
        while j < buttons.len()
            invariant
                j <= buttons@.len(),
                buttons@.len() > 0,
                ids@ == modules.id_list(),
                first_undescribed(*modules, ids@) is None,
                coin_slot(*modules, ids@) == Some(slot@),
                serves(*modules, slot@, Some(Role::Coin), 1, 0),
                buttons@.map_values(|id: ModuleId| id@) == button_ids(*modules, ids@),
                forall|k: int| 0 <= k < j ==> #[trigger] serves(*modules, buttons@[k]@, Some(Role::Button), 1, 1),
            decreases buttons@.len() - j,
        {
            match require_role(modules, &buttons[j], Some(Role::Button), 1, 1) {
                Err(e) => {
                    proof {
                        let names = button_ids(*modules, ids@);
                        assert(names[j as int] == buttons@[j as int]@);
                        assert forall|k: int| 0 <= k < j implies #[trigger] serves(*modules, names[k], Some(Role::Button), 1, 1) by {
                            assert(names[k] == buttons@[k]@);
                        }
                    }
                    return Err(ScenarioError::Require(e));
                },
                Ok(()) => {},
            }
            j += 1;
        }
        let target = buttons[0].duplicate();
        let game = Arcade { slot, buttons, target, credits: 0, failure: None, phase: ArcadePhase::Resetting };
        assert forall|i: int| 0 <= i < game.buttons().len()
            implies #[trigger] serves(*modules, game.buttons()[i], Some(Role::Button), 1, 1) by {
            assert(game.buttons()[i] == game.buttons@[i]@);
        }
        Ok((game, Action::ResetAll))
    }

    /// Back to attract mode, announcing it.
    fn attract(&mut self, notes: Vec<Note>) -> (next: (Vec<Note>, Action))
        ensures
            final(self).slot == old(self).slot,
            final(self).buttons@ == old(self).buttons@,
            final(self).target == old(self).target,
            final(self).credits == old(self).credits,
            final(self).failure == old(self).failure,
            final(self).phase == ArcadePhase::AwaitingCoin,
            next.1 == (Action::NextCoin { timeout_ms: ATTRACT_PATIENCE_MS }),
            next.0@.len() == notes@.len() + 1,
            next.0@.drop_last() == notes@,
            next.0@.last() == (Note::InsertCoin { buttons: old(self).buttons@.len() as usize }),
    {
        let mut notes = notes;
        notes.push(Note::InsertCoin { buttons: self.buttons.len() });
        self.phase = ArcadePhase::AwaitingCoin;
        (notes, Action::NextCoin { timeout_ms: ATTRACT_PATIENCE_MS })
    }

    /// Hear the reply to the last action, and say what to do next.
    ///
    /// A reply of the wrong kind for the pending action ends the session
    /// with [`ScenarioError::UnexpectedReply`].
    pub fn step(&mut self, reply: Reply) -> (next: (Vec<Note>, Action))
        requires
            old(self).wf(),
        ensures
            final(self).wf(),
            final(self).slot() == old(self).slot(),
            final(self).buttons() == old(self).buttons(),
            // Nothing is switched on while another button is lit, and only the
            // lit button is switched off.
            next.1 matches Action::SetOutput { id, channel, on } ==> channel == 0 && (if on {
                old(self).lit() is None && final(self).lit() == Some(id@)
            } else {
                old(self).lit() == Some(id@) && final(self).lit() is None
            }),
            !(next.1 is SetOutput) && !(next.1 is Finish) ==> final(self).lit() == old(self).lit(),
            ({
                let phase = old(self).phase();
                &&& phase == ArcadePhase::Resetting && reply is Done ==> (
                    next.1 == Action::NextCoin { timeout_ms: ATTRACT_PATIENCE_MS }
                    && final(self).phase() == ArcadePhase::AwaitingCoin)
                // A coin from the slot buys `pulses / PULSES_PER_CREDIT` credits;
                // a coin worth none lights nothing and waits for another.
                &&& (phase == ArcadePhase::AwaitingCoin && reply is Coin && reply->Coin_0 is Ok
                    && reply->Coin_0->Ok_0.0@ == old(self).slot() ==> (
                    if credits_for(reply->Coin_0->Ok_0.1) == 0 {
                        next.1 == Action::NextCoin { timeout_ms: ATTRACT_PATIENCE_MS }
                        && final(self).phase() == ArcadePhase::AwaitingCoin
                    } else {
                        next.1 is DrawRandom && final(self).credits() == credits_for(reply->Coin_0->Ok_0.1)
                        && final(self).phase() == (ArcadePhase::Drawing { credit: 1 })
                    }))
                // Stated outright: a paid coin buys every whole credit it is
                // worth, and a coin under the price starts nothing.
                &&& (phase == ArcadePhase::AwaitingCoin && reply is Coin && reply->Coin_0 is Ok
                    && reply->Coin_0->Ok_0.0@ == old(self).slot() ==> {
                    let pulses = reply->Coin_0->Ok_0.1;
                    if pulses < PULSES_PER_CREDIT {
                        final(self).phase() == ArcadePhase::AwaitingCoin && final(self).credits() == old(self).credits()
                    } else {
                        &&& final(self).credits() * PULSES_PER_CREDIT <= pulses
                        &&& pulses < (final(self).credits() + 1) * PULSES_PER_CREDIT
                        &&& final(self).phase() == (ArcadePhase::Drawing { credit: 1 })
                        &&& next.0@[0] == Note::Credits { pulses, credits: final(self).credits() }
                    }
                })
                // A coin from anywhere else buys nothing.
                &&& (phase == ArcadePhase::AwaitingCoin && reply is Coin && reply->Coin_0 is Ok
                    && reply->Coin_0->Ok_0.0@ != old(self).slot() ==> (
                    next.1 == Action::NextCoin { timeout_ms: ATTRACT_PATIENCE_MS }
                    && final(self).phase() == ArcadePhase::AwaitingCoin))
                // Nobody paying ends the session quietly.
                &&& (phase == ArcadePhase::AwaitingCoin && reply is Coin
                    && reply->Coin_0 == Err::<(ModuleId, u8), WaitError>(WaitError::Timeout) ==> (
                    next.1 == Action::Finish(Ok(())) && final(self).phase() == ArcadePhase::Finished))
                &&& (phase == ArcadePhase::AwaitingCoin && reply is Coin && reply->Coin_0 is Err
                    && !(reply->Coin_0->Err_0@ is Timeout) ==> (
                    next.1 matches Action::Finish(Err(ScenarioError::Wait(w))) && w@ == reply->Coin_0->Err_0@))
                // Each credit lights a button the random number picks.
                &&& (phase is Drawing && reply is Random ==> (
                    next.1 matches Action::SetOutput { id, on, .. } && on
                    && id@ == old(self).buttons()[(reply->Random_0 as int) % (old(self).buttons().len() as int)]
                    && final(self).phase() == (ArcadePhase::Lighting { credit: phase->Drawing_credit })))
                &&& (phase is Lighting && reply is Done ==> (
                    next.1 matches Action::WaitForPress { id, timeout_ms } && id@ == old(self).target()
                    && timeout_ms == PATIENCE_MS
                    && final(self).phase() == (ArcadePhase::Waiting { credit: phase->Lighting_credit })))
                // A press or a timeout uses the credit up.
                &&& (phase is Waiting && reply is PressOn && (reply->PressOn_0 is Ok
                    || reply->PressOn_0 == Err::<u8, WaitError>(WaitError::Timeout)) ==> (
                    next.1 is SetOutput
                    && final(self).phase() == (ArcadePhase::Darkening { credit: phase->Waiting_credit })))
                // A loss mid-credit switches the button off, then ends the session.
                &&& (phase is Waiting && reply is PressOn && reply->PressOn_0 is Err
                    && !(reply->PressOn_0->Err_0@ is Timeout) ==> (
                    next.1 is SetOutput && final(self).phase() == ArcadePhase::Failing
                    && final(self).failure() == Some(reply->PressOn_0->Err_0)))
                // The credits are played one after another, then attract mode.
                &&& (phase is Darkening && reply is Done && phase->Darkening_credit < old(self).credits() ==> (
                    next.1 is DrawRandom
                    && final(self).phase() == (ArcadePhase::Drawing { credit: (phase->Darkening_credit + 1) as u8 })))
                &&& (phase is Darkening && reply is Done && phase->Darkening_credit >= old(self).credits() ==> (
                    next.1 == Action::NextCoin { timeout_ms: ATTRACT_PATIENCE_MS }
                    && final(self).phase() == ArcadePhase::AwaitingCoin))
                &&& phase == ArcadePhase::Failing && reply is Done ==> (
                    next.1 matches Action::Finish(Err(ScenarioError::Wait(w))) && old(self).failure() == Some(w)
                    && final(self).phase() == ArcadePhase::Finished)
                // What the game log is told.
                &&& phase == ArcadePhase::Resetting && reply is Done ==> (
                    next.0@ == seq![Note::InsertCoin { buttons: old(self).buttons().len() as usize }])
                &&& (phase == ArcadePhase::AwaitingCoin && reply is Coin && reply->Coin_0 is Ok ==> {
                    let (from, pulses) = (reply->Coin_0->Ok_0.0, reply->Coin_0->Ok_0.1);
                    let attract = Note::InsertCoin { buttons: old(self).buttons().len() as usize };
                    if from@ != old(self).slot() {
                        next.0@.len() == 2 && next.0@[1] == attract
                        && (next.0@[0] matches Note::IgnoredCoin { pulses: p, from: f } && p == pulses && f@ == from@)
                    } else if credits_for(pulses) == 0 {
                        next.0@ == seq![Note::UnderPrice { pulses }, attract]
                    } else {
                        next.0@ == seq![Note::Credits { pulses, credits: credits_for(pulses) },
                            Note::Credit { credit: 1, credits: credits_for(pulses) }]
                    }
                })
                &&& (phase == ArcadePhase::AwaitingCoin && reply == Reply::Coin(Err(WaitError::Timeout)) ==> (
                    next.0@ == seq![Note::NobodyPlayed]))
                &&& (phase is Waiting && reply is PressOn && reply->PressOn_0 is Ok ==> next.0@ == seq![Note::CreditHit])
                &&& (phase is Waiting && reply == Reply::PressOn(Err(WaitError::Timeout)) ==> next.0@ == seq![Note::Forfeited])
                &&& (phase is Darkening && reply is Done ==> (
                    if phase->Darkening_credit < old(self).credits() {
                        next.0@ == seq![Note::Credit { credit: (phase->Darkening_credit + 1) as u8, credits: old(self).credits() }]
                    } else {
                        next.0@ == seq![Note::GameOver { credits: old(self).credits() },
                            Note::InsertCoin { buttons: old(self).buttons().len() as usize }]
                    }))
                &&& (phase is Drawing || phase is Lighting || phase == ArcadePhase::Failing
                    || (next.1 is Finish && !(reply is Coin))) ==> next.0@.len() == 0
                &&& (phase is Drawing || phase is Lighting || phase is Waiting || phase is Darkening)
                    ==> credit_step(old(self).credits(), phase, reply, final(self).phase())
                // Only a paid coin changes the credits, and only a draw the
                // button in play.
                &&& !(phase == ArcadePhase::AwaitingCoin && reply is Coin && reply->Coin_0 is Ok
                    && reply->Coin_0->Ok_0.0@ == old(self).slot() && credits_for(reply->Coin_0->Ok_0.1) > 0)
                    ==> final(self).credits() == old(self).credits()
                &&& !(phase is Drawing && reply is Random) ==> final(self).target() == old(self).target()
                &&& (phase is Drawing && reply is Random ==> final(self).target()
                    == old(self).buttons()[(reply->Random_0 as int) % (old(self).buttons().len() as int)])
                &&& (phase == ArcadePhase::AwaitingCoin && reply is Coin && reply->Coin_0 is Err ==> (
                    final(self).phase() == ArcadePhase::Finished))
                // A reply of the wrong kind ends the session.
                &&& !arcade_expects(phase, reply) ==> (
                    next.1 matches Action::Finish(Err(ScenarioError::UnexpectedReply))
                    && final(self).phase() == ArcadePhase::Finished)
            }),
    {
        let phase = self.phase;
        match (phase, reply) {
            (ArcadePhase::Resetting, Reply::Done) => {
                self.attract(Vec::new())
            },
            (ArcadePhase::AwaitingCoin, Reply::Coin(result)) => {
                match result {
                    Ok((from, pulses)) => {
                        if from.same(&self.slot) {
                            proof { law_a_coin_buys_whole_credits(pulses); }
                            let credits = pulses / PULSES_PER_CREDIT;
                            if credits == 0 {
                                self.attract(vec![Note::UnderPrice { pulses }])
                            } else {
                                self.credits = credits;
                                self.phase = ArcadePhase::Drawing { credit: 1 };
                                let notes = vec![Note::Credits { pulses, credits }, Note::Credit { credit: 1, credits }];
                                (notes, Action::DrawRandom)
                            }
                        } else {
                            self.attract(vec![Note::IgnoredCoin { pulses, from }])
                        }
                    },
                    Err(WaitError::Timeout) => {
                        self.phase = ArcadePhase::Finished;
                        (vec![Note::NobodyPlayed], Action::Finish(Ok(())))
                    },
                    Err(e) => {
                        self.phase = ArcadePhase::Finished;
                        (Vec::new(), Action::Finish(Err(ScenarioError::Wait(e))))
                    },
                }
            },
            (ArcadePhase::Drawing { credit }, Reply::Random(r)) => {
                self.target = pick(&self.buttons, r);
                self.phase = ArcadePhase::Lighting { credit };
                proof {
                    assert(self.buttons@.map_values(|id: ModuleId| id@)[(r as int) % (self.buttons@.len() as int)]
                        == self.buttons@[(r as int) % (self.buttons@.len() as int)]@);
                }
                (Vec::new(), Action::SetOutput { id: self.target.duplicate(), channel: 0, on: true })
            },
            (ArcadePhase::Lighting { credit }, Reply::Done) => {
                self.phase = ArcadePhase::Waiting { credit };
                (Vec::new(), Action::WaitForPress { id: self.target.duplicate(), timeout_ms: PATIENCE_MS })
            },
            (ArcadePhase::Waiting { credit }, Reply::PressOn(result)) => {
                match result {
                    Ok(_channel) => {
                        self.phase = ArcadePhase::Darkening { credit };
                        (vec![Note::CreditHit], Action::SetOutput { id: self.target.duplicate(), channel: 0, on: false })
                    },
                    Err(WaitError::Timeout) => {
                        self.phase = ArcadePhase::Darkening { credit };
                        (vec![Note::Forfeited], Action::SetOutput { id: self.target.duplicate(), channel: 0, on: false })
                    },
                    Err(e) => {
                        self.failure = Some(e);
                        self.phase = ArcadePhase::Failing;
                        (Vec::new(), Action::SetOutput { id: self.target.duplicate(), channel: 0, on: false })
                    },
                }
            },
            (ArcadePhase::Darkening { credit }, Reply::Done) => {
                if credit < self.credits {
                    self.phase = ArcadePhase::Drawing { credit: credit + 1 };
                    (vec![Note::Credit { credit: credit + 1, credits: self.credits }], Action::DrawRandom)
                } else {
                    self.attract(vec![Note::GameOver { credits: self.credits }])
                }
            },
            (ArcadePhase::Failing, Reply::Done) => {
                self.phase = ArcadePhase::Finished;
                let failure = self.failure.take();
                match failure {
                    Some(e) => (Vec::new(), Action::Finish(Err(ScenarioError::Wait(e)))),
                    None => (Vec::new(), Action::Finish(Err(ScenarioError::UnexpectedReply))),
                }
            },
            _ => {
                self.phase = ArcadePhase::Finished;
                (Vec::new(), Action::Finish(Err(ScenarioError::UnexpectedReply)))
            },
        }
    }
}

/// A module found undescribed right after an undescribed-free prefix is the
/// first undescribed module.
proof fn lemma_undescribed_is_first(roster: Roster, ids: Seq<ModuleId>, i: int)
    requires
        0 <= i < ids.len(),
        first_undescribed(roster, ids.take(i)) is None,
        roster.described(ids[i]@) is None,
    ensures
        first_undescribed(roster, ids) == Some(i),
    decreases ids.len(),
{
    if i == ids.len() - 1 {
        assert(ids.drop_last() == ids.take(i));
    } else {
        assert(ids.drop_last().take(i) == ids.take(i));
        lemma_undescribed_is_first(roster, ids.drop_last(), i);
    }
}

} // verus!
