//! The games, driven by hand over a simulated bench: every action a scenario
//! asks for is performed here, with scripted random numbers and stopwatches,
//! and a queue of events standing in for the link.

use modit::link::{ModuleEvent, ModuleId};
use modit::proto::{Command, Descriptor, Event};
use modit::runtime::{
    coin_step, deliver, drop_presses, press_on_step, press_step, HelloSweep, Incoming, Roster,
    WaitError,
};
use modit::scenarios::arcade::Arcade;
use modit::scenarios::simon_says::SimonSays;
use modit::scenarios::speedrun::{Speedrun, SPEEDRUN_LAPS};
use modit::scenarios::whack_a_mole::WhackAMole;
use modit::scenarios::{Action, Note, Reply, ScenarioError, Scoreboard};
use modit::sim::{self, SimBench};

enum Game {
    Whack(WhackAMole),
    Simon(SimonSays),
    Run(Speedrun),
    Arcade(Arcade),
}

impl Game {
    fn step(&mut self, reply: Reply) -> (Vec<Note>, Action) {
        match self {
            Game::Whack(g) => g.step(reply),
            Game::Simon(g) => g.step(reply),
            Game::Run(g) => g.step(reply),
            Game::Arcade(g) => g.step(reply),
        }
    }
}

struct Bed {
    bench: SimBench,
    queue: Vec<Incoming>,
    randoms: Vec<u64>,
    elapsed_ns: u64,
    notes: Vec<Note>,
}

enum Outcome {
    /// The scenario is waiting on the link and nothing queued satisfies it.
    Blocked(Action),
    /// The scenario asked for an action the test wanted to stop at.
    Stopped(Action),
    Finished(Result<(), ScenarioError>),
}

fn id(name: &str) -> ModuleId {
    ModuleId::new(name)
}

fn bed(specs: Vec<(ModuleId, Descriptor)>, randoms: Vec<u64>) -> Bed {
    Bed {
        bench: SimBench::new(specs),
        queue: Vec::new(),
        randoms,
        elapsed_ns: 0,
        notes: Vec::new(),
    }
}

fn buttons(names: &[&str], randoms: Vec<u64>) -> Bed {
    bed(
        names.iter().map(|n| (id(n), sim::button(1, 1))).collect(),
        randoms,
    )
}

/// What the runtime builds before a scenario starts: every module's `Hello`
/// collected, anything else held back.
fn roster(bed: &mut Bed) -> Roster {
    let mut sweep = HelloSweep::new();
    for (m, d) in bed.bench.hellos() {
        sweep.offer((m, ModuleEvent::Message(Event::Hello(d))));
    }
    let (descriptors, held) = sweep.into_parts();
    bed.queue.extend(held);
    Roster::new(bed.bench.ids().clone(), descriptors)
}

fn press(bed: &mut Bed, name: &str) {
    bed.queue
        .push((id(name), ModuleEvent::Message(Event::Pressed { channel: 0 })));
}

fn coin(bed: &mut Bed, name: &str, pulses: u8) {
    bed.queue.push((
        id(name),
        ModuleEvent::Message(Event::Coin { channel: 0, pulses }),
    ));
}

fn lose(bed: &mut Bed, name: &str) {
    bed.queue.push((id(name), ModuleEvent::Lost));
}

/// Perform one action; `None` when it is a wait that nothing queued ends.
fn perform(bed: &mut Bed, action: &Action) -> Option<Reply> {
    match action {
        Action::ResetAll => {
            for m in bed.bench.ids().clone() {
                bed.bench.send(&m, Command::Reset).unwrap();
            }
            Some(Reply::Done)
        }
        Action::Sleep { .. } => Some(Reply::Done),
        Action::SetOutput { id, channel, on } => {
            bed.bench
                .send(id, Command::SetOutput { channel: *channel, on: *on })
                .unwrap();
            Some(Reply::Done)
        }
        Action::DropPendingPresses => Some(Reply::Dropped(drop_presses(&mut bed.queue))),
        Action::WaitForPress { id, .. } => loop {
            if bed.queue.is_empty() {
                return None;
            }
            let next = deliver(bed.queue.remove(0));
            match press_step(next) {
                None => continue,
                Some(Err(e)) => return Some(Reply::PressOn(Err(e))),
                Some(Ok(pressed)) => match press_on_step(id, Ok(pressed)) {
                    None => continue,
                    Some(result) => return Some(Reply::PressOn(result)),
                },
            }
        },
        Action::NextPress { .. } => loop {
            if bed.queue.is_empty() {
                return None;
            }
            if let Some(result) = press_step(deliver(bed.queue.remove(0))) {
                return Some(Reply::Press(result));
            }
        },
        Action::NextCoin { .. } => loop {
            if bed.queue.is_empty() {
                return None;
            }
            if let Some(result) = coin_step(deliver(bed.queue.remove(0))) {
                return Some(Reply::Coin(result));
            }
        },
        Action::DrawRandom => Some(Reply::Random(if bed.randoms.is_empty() {
            0
        } else {
            bed.randoms.remove(0)
        })),
        Action::StartTimer(_) => Some(Reply::Done),
        Action::ReadTimer(_) => {
            bed.elapsed_ns += 1_000_000;
            Some(Reply::Elapsed(bed.elapsed_ns))
        }
        Action::Finish(_) => None,
    }
}

/// Drive the game from `action` until it blocks, finishes, or asks for an
/// action that `stop` picks out.
fn drive(bed: &mut Bed, game: &mut Game, mut action: Action, stop: &dyn Fn(&Action) -> bool) -> Outcome {
    for _ in 0..10_000 {
        if let Action::Finish(result) = action {
            return Outcome::Finished(result);
        }
        if stop(&action) {
            return Outcome::Stopped(action);
        }
        match perform(bed, &action) {
            None => return Outcome::Blocked(action),
            Some(reply) => {
                let (notes, next) = game.step(reply);
                bed.notes.extend(notes);
                action = next;
            }
        }
    }
    panic!("the scenario never blocked or finished");
}

fn run(bed: &mut Bed, game: &mut Game, action: Action) -> Outcome {
    drive(bed, game, action, &|_| false)
}

fn blocked(outcome: Outcome) -> Action {
    match outcome {
        Outcome::Blocked(action) => action,
        Outcome::Stopped(action) => panic!("stopped at {action:?}"),
        Outcome::Finished(result) => panic!("finished with {result:?}"),
    }
}

/// Answer a blocked wait with a timeout.
fn time_out(game: &mut Game, bed: &mut Bed, action: &Action) -> Action {
    let reply = match action {
        Action::WaitForPress { .. } => Reply::PressOn(Err(WaitError::Timeout)),
        Action::NextPress { .. } => Reply::Press(Err(WaitError::Timeout)),
        Action::NextCoin { .. } => Reply::Coin(Err(WaitError::Timeout)),
        other => panic!("{other:?} is not a wait"),
    };
    let (notes, next) = game.step(reply);
    bed.notes.extend(notes);
    next
}

fn lit_so_far(bed: &Bed) -> Vec<String> {
    bed.bench
        .history()
        .iter()
        .filter_map(|(m, command)| match command {
            Command::SetOutput { on: true, .. } => Some(m.to_string()),
            _ => None,
        })
        .collect()
}

fn rounds_ended(bed: &Bed) -> usize {
    bed.bench
        .history()
        .iter()
        .filter(|(_, command)| matches!(command, Command::SetOutput { on: false, .. }))
        .count()
}

fn start_whack(bed: &mut Bed) -> (Game, Action) {
    let modules = roster(bed);
    let (game, action) = WhackAMole::start(&modules).unwrap();
    (Game::Whack(game), action)
}

fn waiting_on(action: &Action) -> String {
    match action {
        Action::WaitForPress { id, .. } => id.to_string(),
        other => panic!("not waiting for a press: {other:?}"),
    }
}

// ---- whack-a-mole ----

#[test]
fn tests_exactly_one_module_lights_up() {
    let mut bed = buttons(&["a", "b"], vec![7, 1]);
    let (mut game, action) = start_whack(&mut bed);
    let wait = blocked(run(&mut bed, &mut game, action));
    let lit = bed.bench.only_lit(0).expect("a module to light up");
    assert_eq!(lit.to_string(), waiting_on(&wait));
    assert_eq!(lit.as_str(), "b");
}

#[test]
fn tests_pressing_the_lit_module_moves_the_light() {
    let mut bed = buttons(&["a", "b"], vec![0, 0, 0, 1]);
    let (mut game, action) = start_whack(&mut bed);
    let wait = blocked(run(&mut bed, &mut game, action));
    let first = bed.bench.only_lit(0).expect("the first module to light");
    assert_eq!(first.as_str(), "a");
    press(&mut bed, "a");
    let wait = blocked(run(&mut bed, &mut game, wait));
    assert!(
        bed.bench.history().iter().any(|(m, c)| m.as_str() == "a"
            && *c == Command::SetOutput { channel: 0, on: false }),
        "the pressed module to go dark"
    );
    let next = bed.bench.only_lit(0).expect("the next module to light");
    assert_eq!(next.as_str(), "b");
    assert_eq!(waiting_on(&wait), "b");
}

#[test]
fn tests_one_module_is_enough_to_play() {
    let mut bed = buttons(&["a"], vec![]);
    let (mut game, action) = start_whack(&mut bed);
    let wait = blocked(run(&mut bed, &mut game, action));
    assert_eq!(bed.bench.output(&id("a"), 0), Some(true));
    press(&mut bed, "a");
    let _ = blocked(run(&mut bed, &mut game, wait));
    assert_eq!(rounds_ended(&bed), 1, "the module to go dark after being pressed");
    assert_eq!(
        bed.bench.output(&id("a"), 0),
        Some(true),
        "the module to light for the next round"
    );
}

#[test]
fn tests_a_press_that_arrives_before_the_light_is_not_a_hit() {
    let mut bed = buttons(&["a"], vec![]);
    let (mut game, action) = start_whack(&mut bed);
    let wait = blocked(run(&mut bed, &mut game, action));
    press(&mut bed, "a");
    // Stop between rounds, at the pause before the next light.
    let pause = match drive(&mut bed, &mut game, wait, &|a| matches!(a, Action::Sleep { .. })) {
        Outcome::Stopped(action) => action,
        _ => panic!("the round to end"),
    };
    assert_eq!(rounds_ended(&bed), 1);
    // The duplicate, arriving while the game is between rounds.
    press(&mut bed, "a");
    let wait = blocked(run(&mut bed, &mut game, pause));
    assert!(
        lit_so_far(&bed).len() >= 2,
        "the next round never started, so this test proves nothing"
    );
    assert_eq!(
        rounds_ended(&bed),
        1,
        "a round ended with nobody pressing anything"
    );
    assert_eq!(waiting_on(&wait), "a");
    assert!(bed.queue.is_empty());
    assert!(bed
        .notes
        .iter()
        .any(|n| matches!(n, Note::DroppedStale { count: 1, .. })));
}

#[test]
fn tests_pressing_the_wrong_module_changes_nothing() {
    let mut bed = buttons(&["a", "b"], vec![0, 0]);
    let (mut game, action) = start_whack(&mut bed);
    let wait = blocked(run(&mut bed, &mut game, action));
    let lit = bed.bench.only_lit(0).expect("a module to light");
    assert_eq!(lit.as_str(), "a");
    for _ in 0..5 {
        press(&mut bed, "b");
    }
    let wait = blocked(run(&mut bed, &mut game, wait));
    assert_eq!(
        bed.bench.only_lit(0),
        Some(lit),
        "a wrong press must not advance the round"
    );
    assert_eq!(waiting_on(&wait), "a");
    assert_eq!(rounds_ended(&bed), 0);
}

#[test]
fn tests_losing_an_unlit_module_does_not_end_the_round() {
    let mut bed = buttons(&["a", "b", "c"], vec![0, 1]);
    let (mut game, action) = start_whack(&mut bed);
    let wait = blocked(run(&mut bed, &mut game, action));
    let lit = bed.bench.only_lit(0).expect("a module to light");
    assert_eq!(lit.as_str(), "b");
    lose(&mut bed, "c");
    let wait = blocked(run(&mut bed, &mut game, wait));
    assert_eq!(bed.bench.only_lit(0), Some(lit.clone()));
    assert_eq!(waiting_on(&wait), "b");
    press(&mut bed, "b");
    let _ = blocked(run(&mut bed, &mut game, wait));
    assert_eq!(
        rounds_ended(&bed),
        1,
        "the round to continue after an unrelated module was lost"
    );
    assert!(bed
        .notes
        .iter()
        .any(|n| matches!(n, Note::Continuing { lost } if lost.as_str() == "c")));
}

#[test]
fn losing_the_lit_module_ends_the_game_with_the_loss() {
    let mut bed = buttons(&["a", "b"], vec![0, 0]);
    let (mut game, action) = start_whack(&mut bed);
    let wait = blocked(run(&mut bed, &mut game, action));
    lose(&mut bed, "a");
    match run(&mut bed, &mut game, wait) {
        Outcome::Finished(Err(ScenarioError::Wait(WaitError::ModuleLost(lost)))) => {
            assert_eq!(lost.as_str(), "a")
        }
        _ => panic!("losing the lit module must end the game"),
    }
}

#[test]
fn tests_every_module_starts_dark() {
    let mut bed = buttons(&["a", "b"], vec![]);
    let (mut game, action) = start_whack(&mut bed);
    let sleep = match drive(&mut bed, &mut game, action, &|a| matches!(a, Action::Sleep { .. })) {
        Outcome::Stopped(action) => action,
        _ => panic!("the first pause"),
    };
    assert_eq!(bed.bench.output(&id("a"), 0), Some(false));
    assert_eq!(bed.bench.output(&id("b"), 0), Some(false));
    // The pause is 500 ms plus the random draw modulo 1500.
    assert!(matches!(sleep, Action::Sleep { ms: 500 }));
}

#[test]
fn a_whack_round_nobody_plays_moves_on() {
    let mut bed = buttons(&["a"], vec![]);
    let (mut game, action) = start_whack(&mut bed);
    let wait = blocked(run(&mut bed, &mut game, action));
    let next = time_out(&mut game, &mut bed, &wait);
    let _ = blocked(run(&mut bed, &mut game, next));
    assert_eq!(rounds_ended(&bed), 1);
    assert!(bed
        .notes
        .iter()
        .any(|n| matches!(n, Note::NobodyPressed { .. })));
}

#[test]
fn whack_a_mole_refuses_a_board_without_an_output() {
    let mut bed = bed(vec![(id("a"), sim::button(1, 0))], vec![]);
    let modules = roster(&mut bed);
    match WhackAMole::start(&modules) {
        Err(ScenarioError::Require(e)) => assert_eq!(
            e.message(),
            "module a has 1 input(s) and 0 output(s), but the scenario needs 1 and 1"
        ),
        _ => panic!("a board with no LED cannot play whack-a-mole"),
    }
}

#[test]
fn a_reply_of_the_wrong_kind_ends_the_game() {
    let mut bed = buttons(&["a"], vec![]);
    let (mut game, _action) = start_whack(&mut bed);
    let (_, next) = game.step(Reply::Random(3));
    assert!(matches!(
        next,
        Action::Finish(Err(ScenarioError::UnexpectedReply))
    ));
}

// ---- Simon Says ----

fn start_simon(bed: &mut Bed) -> (Game, Action) {
    let modules = roster(bed);
    let (game, action) = SimonSays::start(&modules).unwrap();
    (Game::Simon(game), action)
}

fn game_over_blinked(bed: &Bed) -> bool {
    let mut lit: Option<String> = None;
    for (m, command) in bed.bench.history() {
        match command {
            Command::SetOutput { on: true, .. } => {
                if lit.as_ref().is_some_and(|other| other.as_str() != m.as_str()) {
                    return true;
                }
                lit = Some(m.to_string());
            }
            _ => lit = None,
        }
    }
    false
}

#[test]
fn tests_repeating_the_sequence_extends_it() {
    let mut bed = buttons(&["a", "b"], vec![1, 0]);
    let (mut game, action) = start_simon(&mut bed);
    let wait = blocked(run(&mut bed, &mut game, action));
    let first = lit_so_far(&bed);
    assert_eq!(first.len(), 1, "first sequence should be one step");
    press(&mut bed, &first[0]);
    let _ = blocked(run(&mut bed, &mut game, wait));
    let shown = lit_so_far(&bed);
    let second = &shown[1..];
    assert_eq!(second.len(), 2, "sequence should have grown to two steps");
    assert_eq!(
        second[0], first[0],
        "the sequence should be extended, not replaced"
    );
    assert_eq!(second, ["b", "a"]);
}

#[test]
fn tests_a_wrong_press_ends_the_round() {
    let mut bed = buttons(&["a", "b"], vec![0]);
    let (mut game, action) = start_simon(&mut bed);
    let wait = blocked(run(&mut bed, &mut game, action));
    assert_eq!(lit_so_far(&bed), ["a"]);
    assert!(!game_over_blinked(&bed), "the round should not be over yet");
    press(&mut bed, "b");
    match run(&mut bed, &mut game, wait) {
        Outcome::Finished(Ok(())) => {}
        _ => panic!("the round ends after the blink"),
    }
    assert!(game_over_blinked(&bed), "the game-over blink after a wrong press");
    assert!(bed
        .notes
        .iter()
        .any(|n| matches!(n, Note::RoundOver { score: 0 })));
    // Three blinks over two modules, after the one step shown.
    assert_eq!(lit_so_far(&bed).len(), 1 + 3 * 2);
}

#[test]
fn simon_scores_every_completed_sequence() {
    let mut bed = buttons(&["a", "b"], vec![0, 1, 1]);
    let (mut game, action) = start_simon(&mut bed);
    let mut wait = blocked(run(&mut bed, &mut game, action));
    for answer in [vec!["a"], vec!["a", "b"]] {
        for name in answer {
            press(&mut bed, name);
        }
        wait = blocked(run(&mut bed, &mut game, wait));
    }
    // Sequence a, b, b is shown; nobody answers.
    let next = time_out(&mut game, &mut bed, &wait);
    assert!(matches!(run(&mut bed, &mut game, next), Outcome::Finished(Ok(()))));
    assert!(bed
        .notes
        .iter()
        .any(|n| matches!(n, Note::RoundOver { score: 2 })));
}

// ---- speedrun ----

fn start_run(bed: &mut Bed) -> (Game, Action) {
    let modules = roster(bed);
    let (game, action) = Speedrun::start(&modules).unwrap();
    (Game::Run(game), action)
}

#[test]
fn tests_laps_alternate_between_modules() {
    let mut bed = buttons(&["a", "b"], vec![]);
    let (mut game, action) = start_run(&mut bed);
    let mut wait = blocked(run(&mut bed, &mut game, action));
    for _ in 0..4 {
        let lit = bed.bench.only_lit(0).expect("a module to light");
        press(&mut bed, lit.as_str());
        wait = blocked(run(&mut bed, &mut game, wait));
    }
    let order = lit_so_far(&bed);
    assert!(order.len() >= 4, "expected at least 4 laps, got {order:?}");
    for pair in order[..4].windows(2) {
        assert_ne!(
            pair[0], pair[1],
            "a speedrun should alternate, not repeat: {order:?}"
        );
    }
}

#[test]
fn tests_a_wrong_press_does_not_advance_the_lap() {
    let mut bed = buttons(&["a", "b"], vec![]);
    let (mut game, action) = start_run(&mut bed);
    let wait = blocked(run(&mut bed, &mut game, action));
    let lit = bed.bench.only_lit(0).expect("the first lap to start");
    assert_eq!(lit.as_str(), "a");
    for _ in 0..3 {
        press(&mut bed, "b");
    }
    let _ = blocked(run(&mut bed, &mut game, wait));
    assert_eq!(bed.bench.only_lit(0), Some(lit));
    assert_eq!(lit_so_far(&bed).len(), 1, "no extra lap should have started");
    assert_eq!(
        bed.notes
            .iter()
            .filter(|n| matches!(n, Note::Miss { .. }))
            .count(),
        3
    );
}

#[test]
fn tests_one_module_is_refused_with_a_reason() {
    let mut bed = buttons(&["a"], vec![]);
    let modules = roster(&mut bed);
    let err = match Speedrun::start(&modules) {
        Err(e) => e,
        Ok(_) => panic!("one module cannot make a speedrun"),
    };
    let rendered = err.message();
    assert!(rendered.contains("at least 2 modules"), "{rendered}");
    assert!(matches!(err, ScenarioError::TooFewModules { found: 1 }));
}

#[test]
fn a_finished_run_reports_its_scoreboard() {
    let mut bed = buttons(&["a", "b"], vec![]);
    let (mut game, action) = start_run(&mut bed);
    let mut wait = blocked(run(&mut bed, &mut game, action));
    press(&mut bed, "b");
    for _ in 0..SPEEDRUN_LAPS {
        let lit = bed.bench.only_lit(0).expect("a lap to be lit");
        press(&mut bed, lit.as_str());
        match run(&mut bed, &mut game, wait) {
            Outcome::Blocked(next) => wait = next,
            Outcome::Finished(result) => {
                assert!(result.is_ok());
                break;
            }
            Outcome::Stopped(_) => unreachable!(),
        }
    }
    // Each lap reads its split, then the run's total: the splits come out as
    // 1, 3, 5, ... ms with this stopwatch.
    let board = bed
        .notes
        .iter()
        .find_map(|n| match n {
            Note::Complete { board } => Some(*board),
            _ => None,
        })
        .expect("a scoreboard");
    assert_eq!(
        board,
        Scoreboard {
            total_ns: 100_000_000,
            best_ns: 1_000_000,
            average_ns: 10_000_000,
            worst_ns: 19_000_000,
            misses: 1,
        }
    );
}

#[test]
fn a_run_nobody_plays_is_abandoned() {
    let mut bed = buttons(&["a", "b"], vec![]);
    let (mut game, action) = start_run(&mut bed);
    let wait = blocked(run(&mut bed, &mut game, action));
    let next = time_out(&mut game, &mut bed, &wait);
    assert!(matches!(run(&mut bed, &mut game, next), Outcome::Finished(Ok(()))));
    assert_eq!(bed.bench.only_lit(0), None);
    assert!(bed.notes.iter().any(|n| matches!(n, Note::Abandoned)));
}

// ---- arcade ----

fn arcade_bed(randoms: Vec<u64>) -> Bed {
    bed(
        vec![
            (id("slot"), sim::coin()),
            (id("a"), sim::button(1, 1)),
            (id("b"), sim::button(1, 1)),
        ],
        randoms,
    )
}

fn start_arcade(bed: &mut Bed) -> (Game, Action) {
    let modules = roster(bed);
    let (game, action) = Arcade::start(&modules).unwrap();
    (Game::Arcade(game), action)
}

fn in_attract_mode(action: &Action) -> bool {
    matches!(action, Action::NextCoin { .. })
}

#[test]
fn tests_nothing_lights_before_anyone_has_paid() {
    let mut bed = arcade_bed(vec![]);
    let (mut game, action) = start_arcade(&mut bed);
    let wait = blocked(run(&mut bed, &mut game, action));
    assert!(in_attract_mode(&wait), "attract mode");
    assert_eq!(bed.bench.only_lit(0), None, "a button lit before anyone paid");
    // A press is no payment.
    press(&mut bed, "a");
    let wait = blocked(run(&mut bed, &mut game, wait));
    assert!(in_attract_mode(&wait));
    assert_eq!(bed.bench.only_lit(0), None);
}

#[test]
fn tests_a_coin_buys_a_round() {
    let mut bed = arcade_bed(vec![1]);
    let (mut game, action) = start_arcade(&mut bed);
    let wait = blocked(run(&mut bed, &mut game, action));
    coin(&mut bed, "slot", 1);
    let wait = blocked(run(&mut bed, &mut game, wait));
    let lit = bed.bench.only_lit(0).expect("a button to light up");
    assert_eq!(lit.as_str(), "b");
    assert_eq!(waiting_on(&wait), "b");
}

#[test]
fn tests_a_three_pulse_coin_buys_three_rounds() {
    let mut bed = arcade_bed(vec![0, 1, 0]);
    let (mut game, action) = start_arcade(&mut bed);
    let mut wait = blocked(run(&mut bed, &mut game, action));
    coin(&mut bed, "slot", 3);
    wait = blocked(run(&mut bed, &mut game, wait));
    for credit in 0..3 {
        let lit = bed
            .bench
            .only_lit(0)
            .unwrap_or_else(|| panic!("credit {} to light a button", credit + 1));
        press(&mut bed, lit.as_str());
        wait = blocked(run(&mut bed, &mut game, wait));
        assert!(rounds_ended(&bed) > credit, "credit {} to be spent", credit + 1);
    }
    assert!(in_attract_mode(&wait));
    assert_eq!(lit_so_far(&bed), ["a", "b", "a"]);
    assert!(bed
        .notes
        .iter()
        .any(|n| matches!(n, Note::GameOver { credits: 3 })));
}

#[test]
fn tests_a_coin_worth_no_credits_does_not_start_a_game() {
    let mut bed = arcade_bed(vec![]);
    let (mut game, action) = start_arcade(&mut bed);
    let wait = blocked(run(&mut bed, &mut game, action));
    coin(&mut bed, "slot", 0);
    let wait = blocked(run(&mut bed, &mut game, wait));
    assert!(in_attract_mode(&wait));
    assert_eq!(bed.bench.only_lit(0), None, "a 0-pulse coin started a game");
}

#[test]
fn a_coin_from_a_button_buys_nothing() {
    let mut bed = arcade_bed(vec![]);
    let (mut game, action) = start_arcade(&mut bed);
    let wait = blocked(run(&mut bed, &mut game, action));
    coin(&mut bed, "a", 2);
    let wait = blocked(run(&mut bed, &mut game, wait));
    assert!(in_attract_mode(&wait));
    assert_eq!(bed.bench.only_lit(0), None);
    assert!(bed
        .notes
        .iter()
        .any(|n| matches!(n, Note::IgnoredCoin { pulses: 2, .. })));
}

#[test]
fn tests_arcade_refuses_a_bench_with_no_coin_acceptor() {
    let mut bed = buttons(&["a", "b"], vec![]);
    let modules = roster(&mut bed);
    let err = match Arcade::start(&modules) {
        Err(e) => e,
        Ok(_) => panic!("arcade without a coin slot must fail, not wait forever"),
    };
    assert!(
        err.message().contains("coin acceptor"),
        "should say what is missing: {}",
        err.message()
    );
}

#[test]
fn tests_arcade_refuses_a_bench_with_nothing_to_play() {
    let mut bed = bed(vec![(id("slot"), sim::coin())], vec![]);
    let modules = roster(&mut bed);
    let err = match Arcade::start(&modules) {
        Err(e) => e,
        Ok(_) => panic!("a coin slot with no buttons must fail, not take money"),
    };
    assert!(
        err.message().contains("button"),
        "should say what is missing: {}",
        err.message()
    );
}

#[test]
fn arcade_refuses_a_module_that_never_said_what_it_was() {
    let mut bed = arcade_bed(vec![]);
    let modules = Roster::new(bed.bench.ids().clone(), Vec::new());
    bed.queue.clear();
    match Arcade::start(&modules) {
        Err(ScenarioError::Undescribed { id }) => assert_eq!(id.as_str(), "slot"),
        _ => panic!("an undescribed module must be refused"),
    }
}

#[test]
fn tests_every_module_reports_what_it_is_before_the_scenario_starts() {
    let mut bed = arcade_bed(vec![]);
    let modules = roster(&mut bed);
    let slot = modules.descriptor(&id("slot")).expect("the coin slot never introduced itself");
    assert_eq!(slot, sim::coin());
    let button = modules.descriptor(&id("a")).expect("the button never introduced itself");
    assert_eq!(button, sim::button(1, 1));
}

#[test]
fn losing_a_button_mid_credit_switches_it_off_and_ends_the_session() {
    let mut bed = arcade_bed(vec![0]);
    let (mut game, action) = start_arcade(&mut bed);
    let wait = blocked(run(&mut bed, &mut game, action));
    coin(&mut bed, "slot", 1);
    let wait = blocked(run(&mut bed, &mut game, wait));
    lose(&mut bed, "a");
    match run(&mut bed, &mut game, wait) {
        Outcome::Finished(Err(ScenarioError::Wait(WaitError::ModuleLost(lost)))) => {
            assert_eq!(lost.as_str(), "a")
        }
        _ => panic!("a lost button ends the session"),
    }
    assert_eq!(bed.bench.only_lit(0), None);
}
