use modit::scenarios::whack_a_mole::WhackAMole;
use modit::scenarios::ScenarioError;
use modit::ble_link::{
    button_hello, button_payload, is_modit_name, next_backoff, scan_outcome, stream_event,
    OneOutputError, ScanOutcome, StreamInput, BACKOFF_MAX_MS, BACKOFF_START_MS,
};
use modit::coin_motor::{parse_coin_message, spin_command, spin_duration_ms, Brain};
use modit::link::{copy_ids, ModuleEvent, ModuleId};
use modit::proto::{Command, Descriptor, Event, Role, PROTOCOL_VERSION};
use modit::runtime::{
    coin_step, deliver, drop_presses, press_on_step, press_step, require, require_role,
    HelloSweep, Incoming, RequireError, Roster, WaitError,
};
use modit::sim::{self, SimBench, SimError};
use modit::table::{insert, position};
use modit::text::{chars_of, string_of, to_decimal, trim_bounds};

fn id(name: &str) -> ModuleId {
    ModuleId::new(name)
}

fn pressed(name: &str) -> Incoming {
    (id(name), ModuleEvent::Message(Event::Pressed { channel: 0 }))
}

// ---- the runtime's filters ----

#[test]
fn a_loss_is_delivered_as_an_error_naming_the_module() {
    match deliver((id("a"), ModuleEvent::Lost)) {
        Err(WaitError::ModuleLost(lost)) => assert_eq!(lost.as_str(), "a"),
        other => panic!("{other:?}"),
    }
    match deliver(pressed("b")) {
        Ok((from, Event::Pressed { channel: 0 })) => assert_eq!(from.as_str(), "b"),
        other => panic!("{other:?}"),
    }
}

#[test]
fn the_press_filter_skips_everything_but_presses() {
    let hello = Ok((id("a"), Event::Hello(sim::button(1, 1))));
    assert!(press_step(hello).is_none());
    let coin = Ok((id("a"), Event::Coin { channel: 0, pulses: 2 }));
    assert!(press_step(coin.clone()).is_none());
    match press_step(Ok((id("a"), Event::Pressed { channel: 4 }))) {
        Some(Ok((from, 4))) => assert_eq!(from.as_str(), "a"),
        other => panic!("{other:?}"),
    }
    assert!(matches!(press_step(Err(WaitError::Closed)), Some(Err(WaitError::Closed))));
    match coin_step(coin) {
        Some(Ok((from, 2))) => assert_eq!(from.as_str(), "a"),
        other => panic!("{other:?}"),
    }
    assert!(coin_step(Ok((id("a"), Event::Pressed { channel: 0 }))).is_none());
}

#[test]
fn a_press_elsewhere_does_not_end_a_wait_on_one_module() {
    let target = id("a");
    assert!(press_on_step(&target, Ok((id("b"), 0))).is_none());
    assert!(matches!(press_on_step(&target, Ok((id("a"), 3))), Some(Ok(3))));
    assert!(matches!(
        press_on_step(&target, Err(WaitError::Timeout)),
        Some(Err(WaitError::Timeout))
    ));
}

#[test]
fn dropping_presses_keeps_a_loss_queued_behind_them() {
    let mut queue: Vec<Incoming> = vec![
        pressed("a"),
        (id("b"), ModuleEvent::Message(Event::Released { channel: 0 })),
        pressed("b"),
        (id("a"), ModuleEvent::Lost),
        pressed("a"),
    ];
    assert_eq!(drop_presses(&mut queue), 3);
    assert_eq!(
        queue,
        vec![
            (id("b"), ModuleEvent::Message(Event::Released { channel: 0 })),
            (id("a"), ModuleEvent::Lost),
        ]
    );
    assert_eq!(drop_presses(&mut queue), 0);
}

#[test]
fn the_hello_sweep_holds_back_everything_else_in_order() {
    let mut sweep = HelloSweep::new();
    assert!(sweep.wants_more(2));
    sweep.offer(pressed("a"));
    sweep.offer((id("a"), ModuleEvent::Message(Event::Hello(sim::button(1, 1)))));
    sweep.offer((id("b"), ModuleEvent::Lost));
    sweep.offer((id("a"), ModuleEvent::Message(Event::Hello(sim::button(2, 2)))));
    assert!(sweep.wants_more(2));
    sweep.offer((id("b"), ModuleEvent::Message(Event::Hello(sim::coin()))));
    assert!(!sweep.wants_more(2));
    let (descriptors, held) = sweep.into_parts();
    assert_eq!(descriptors.len(), 2);
    assert_eq!(held, vec![pressed("a"), (id("b"), ModuleEvent::Lost)]);
    let roster = Roster::new(vec![id("a"), id("b"), id("c")], descriptors);
    assert_eq!(roster.descriptor(&id("a")), Some(sim::button(2, 2)));
    assert_eq!(roster.descriptor(&id("b")), Some(sim::coin()));
    assert_eq!(roster.descriptor(&id("c")), None);
    assert_eq!(roster.ids().len(), 3);
}

#[test]
fn wait_errors_read_as_the_runtime_reports_them() {
    assert_eq!(WaitError::Timeout.message(), "timed out");
    assert_eq!(WaitError::ModuleLost(id("a")).message(), "module a was lost");
    assert_eq!(WaitError::Closed.message(), "the runtime is shutting down");
    assert!(WaitError::Timeout.is_timeout());
    assert!(!WaitError::Closed.is_timeout());
}

fn roster_of(specs: Vec<(ModuleId, Descriptor)>) -> Roster {
    let ids = copy_ids(&specs.iter().map(|(m, _)| m.clone()).collect());
    Roster::new(ids, specs)
}

#[test]
fn a_module_that_never_described_itself_passes_every_check() {
    let roster = Roster::new(vec![id("a")], Vec::new());
    assert!(require_role(&roster, &id("a"), Some(Role::Coin), 9, 9).is_ok());
}

#[test]
fn the_capability_checks_run_in_order() {
    let stale = Descriptor { protocol: PROTOCOL_VERSION.wrapping_add(1), role: Role::Coin, inputs: 0, outputs: 0 };
    let roster = roster_of(vec![(id("old"), stale), (id("slot"), sim::coin()), (id("a"), sim::button(1, 1))]);
    match require_role(&roster, &id("old"), Some(Role::Button), 1, 1) {
        Err(e @ RequireError::Incompatible { .. }) => {
            assert_eq!(e.message(), "module old is running incompatible firmware")
        }
        other => panic!("{other:?}"),
    }
    match require_role(&roster, &id("slot"), Some(Role::Button), 1, 1) {
        Err(e @ RequireError::WrongRole { .. }) => assert_eq!(
            e.message(),
            "module slot is a Coin, but the scenario needs a Button"
        ),
        other => panic!("{other:?}"),
    }
    assert!(require_role(&roster, &id("slot"), Some(Role::Coin), 1, 0).is_ok());
    assert!(require(&roster, &id("a"), 1, 1).is_ok());
    match require(&roster, &id("a"), 2, 1) {
        Err(RequireError::TooFewChannels { has_inputs: 1, has_outputs: 1, needs_inputs: 2, needs_outputs: 1, .. }) => {}
        other => panic!("{other:?}"),
    }
}

// ---- the simulated bench ----

#[test]
fn the_simulated_bench_starts_dark_and_obeys_commands() {
    let mut bench = SimBench::new(vec![(id("a"), sim::button(1, 2)), (id("b"), sim::button(1, 1))]);
    assert_eq!(bench.output(&id("a"), 0), Some(false));
    assert_eq!(bench.output(&id("a"), 1), Some(false));
    assert_eq!(bench.output(&id("a"), 2), None);
    assert_eq!(bench.only_lit(0), None);
    assert!(bench.send(&id("a"), Command::SetOutput { channel: 1, on: true }).unwrap().is_none());
    assert_eq!(bench.output(&id("a"), 1), Some(true));
    assert_eq!(bench.only_lit(1).map(|m| m.to_string()), Some("a".to_string()));
    bench.send(&id("b"), Command::SetOutput { channel: 0, on: true }).unwrap();
    bench.send(&id("a"), Command::SetOutput { channel: 0, on: true }).unwrap();
    assert_eq!(bench.only_lit(0), None, "two lit is not one lit");
    bench.send(&id("a"), Command::Reset).unwrap();
    assert_eq!(bench.output(&id("a"), 0), Some(false));
    assert_eq!(bench.output(&id("a"), 1), Some(false));
    assert_eq!(bench.only_lit(0).map(|m| m.to_string()), Some("b".to_string()));
    assert_eq!(
        bench.send(&id("b"), Command::Describe).unwrap(),
        Some(sim::button(1, 1))
    );
    assert_eq!(bench.history().len(), 5);
    assert_eq!(bench.history()[4], (id("b"), Command::Describe));
}

#[test]
fn the_simulated_bench_refuses_what_does_not_exist() {
    let mut bench = SimBench::new(vec![(id("a"), sim::button(1, 1))]);
    match bench.send(&id("z"), Command::Reset) {
        Err(e @ SimError::NoSuchModule { .. }) => assert_eq!(e.message(), "no simulated module z"),
        other => panic!("{other:?}"),
    }
    match bench.send(&id("a"), Command::SetOutput { channel: 3, on: true }) {
        Err(e @ SimError::NoSuchOutput { .. }) => {
            assert_eq!(e.message(), "module a has 1 output(s), cannot set channel 3")
        }
        other => panic!("{other:?}"),
    }
    // Refused commands are still recorded.
    assert_eq!(bench.history().len(), 2);
}

#[test]
fn a_power_cycle_switches_everything_off_and_greets_again() {
    let mut bench = SimBench::new(vec![(id("slot"), sim::coin()), (id("a"), sim::button(1, 1))]);
    bench.send(&id("a"), Command::SetOutput { channel: 0, on: true }).unwrap();
    bench.power_cycle();
    assert_eq!(bench.output(&id("a"), 0), Some(false));
    let hellos = bench.hellos();
    assert_eq!(hellos, vec![(id("slot"), sim::coin()), (id("a"), sim::button(1, 1))]);
    assert_eq!(bench.ids().len(), 2);
}

#[test]
fn simulated_modules_claim_the_current_protocol() {
    assert_eq!(
        sim::button(2, 3),
        Descriptor { protocol: PROTOCOL_VERSION, role: Role::Button, inputs: 2, outputs: 3 }
    );
    assert_eq!(
        sim::coin(),
        Descriptor { protocol: PROTOCOL_VERSION, role: Role::Coin, inputs: 1, outputs: 0 }
    );
}

// ---- the BLE transport's decisions ----

#[test]
fn the_backoff_doubles_up_to_its_ceiling() {
    assert_eq!(next_backoff(0), BACKOFF_START_MS);
    assert_eq!(next_backoff(3_000), 6_000);
    assert_eq!(next_backoff(12_000), 24_000);
    assert_eq!(next_backoff(24_000), BACKOFF_MAX_MS);
    assert_eq!(next_backoff(BACKOFF_MAX_MS), BACKOFF_MAX_MS);
    assert_eq!(next_backoff(u64::MAX), BACKOFF_MAX_MS);
}

#[test]
fn only_modit_names_are_ours() {
    assert!(is_modit_name("modit-button-a"));
    assert!(is_modit_name("modit"));
    assert!(!is_modit_name("modi"));
    assert!(!is_modit_name("my-modit"));
    assert!(!is_modit_name(""));
}

#[test]
fn the_button_firmware_speaks_one_byte() {
    assert_eq!(button_payload(Command::SetOutput { channel: 0, on: true }), Ok(Some(1)));
    assert_eq!(button_payload(Command::SetOutput { channel: 0, on: false }), Ok(Some(0)));
    assert_eq!(button_payload(Command::Reset), Ok(Some(0)));
    assert_eq!(button_payload(Command::Describe), Ok(None));
    let err = button_payload(Command::SetOutput { channel: 2, on: true }).unwrap_err();
    assert_eq!(err, OneOutputError { channel: 2 });
    assert_eq!(err.message(&id("a")), "module a has one output, cannot set channel 2");
    assert_eq!(button_hello(), sim::button(1, 1));
}

#[test]
fn a_module_stream_reports_presses_and_losses() {
    let wanted = 0x917312e0_2354_11eb_9f10_fbc30a62cf30u128;
    assert_eq!(stream_event(wanted, StreamInput::Ended), Some(ModuleEvent::Lost));
    assert_eq!(stream_event(wanted, StreamInput::Tick { connected: false }), Some(ModuleEvent::Lost));
    assert_eq!(stream_event(wanted, StreamInput::Tick { connected: true }), None);
    assert_eq!(
        stream_event(wanted, StreamInput::Notification { uuid: wanted }),
        Some(ModuleEvent::Message(Event::Pressed { channel: 0 }))
    );
    assert_eq!(stream_event(wanted, StreamInput::Notification { uuid: 1 }), None);
}

#[test]
fn a_scan_starts_only_when_every_module_is_bound() {
    assert_eq!(scan_outcome(&vec![true, false], 0), ScanOutcome::Rescan { backoff_ms: 3_000 });
    assert_eq!(scan_outcome(&vec![false], 6_000), ScanOutcome::Rescan { backoff_ms: 12_000 });
    assert_eq!(scan_outcome(&vec![true, true], 6_000), ScanOutcome::Bound);
    assert_eq!(scan_outcome(&vec![], 0), ScanOutcome::NothingBound);
}

// ---- the coin-operated motor ----

#[test]
fn coin_reports_are_read_as_numbers() {
    assert_eq!(parse_coin_message(b"COIN:100"), Some(100));
    assert_eq!(parse_coin_message(b"COIN:+50"), Some(50));
    assert_eq!(parse_coin_message(b"COIN:4294967295"), Some(u32::MAX));
    assert_eq!(parse_coin_message(b"COIN:4294967296"), None);
    assert_eq!(parse_coin_message(b"COIN:"), None);
    assert_eq!(parse_coin_message(b"COIN:+"), None);
    assert_eq!(parse_coin_message(b"COIN:1a"), None);
    assert_eq!(parse_coin_message(b"COIN: 1"), None);
    assert_eq!(parse_coin_message(b"PING"), None);
    assert_eq!(parse_coin_message(b"coin:1"), None);
}

#[test]
fn bigger_coins_spin_the_motor_longer() {
    assert_eq!(spin_duration_ms(100), 2000);
    assert_eq!(spin_duration_ms(50), 1000);
    assert_eq!(spin_duration_ms(20), 500);
    assert_eq!(spin_command(100), b"SPIN:2000".to_vec());
    assert_eq!(spin_command(50), b"SPIN:1000".to_vec());
    assert_eq!(spin_command(1), b"SPIN:500".to_vec());
    let brain = Brain::new(1u8, "motor");
    assert_eq!((brain.coin_input, brain.motor), (1u8, "motor"));
}

// ---- text and tables ----

#[test]
fn numbers_are_written_in_decimal() {
    assert_eq!(to_decimal(0), "0");
    assert_eq!(to_decimal(7), "7");
    assert_eq!(to_decimal(1200), "1200");
    assert_eq!(to_decimal(u64::MAX), "18446744073709551615");
}

#[test]
fn trimming_finds_the_text_between_the_spaces() {
    let chars = chars_of(" \ta b\n ");
    let (from, to) = trim_bounds(&chars, 0, chars.len());
    assert_eq!(string_of(&chars, from, to), "a b");
    let blank = chars_of("   ");
    let (from, to) = trim_bounds(&blank, 0, blank.len());
    assert_eq!(from, to);
}

#[test]
fn a_table_keeps_one_entry_per_module() {
    let mut table: Vec<(ModuleId, u8)> = Vec::new();
    insert(&mut table, id("a"), 1);
    insert(&mut table, id("b"), 2);
    insert(&mut table, id("a"), 3);
    assert_eq!(table, vec![(id("a"), 3), (id("b"), 2)]);
    assert_eq!(position(&table, &id("b")), Some(1));
    assert_eq!(position(&table, &id("c")), None);
}

#[test]
fn a_refusal_says_why() {
    let stale = Descriptor { protocol: PROTOCOL_VERSION.wrapping_add(1), role: Role::Button, inputs: 1, outputs: 1 };
    let roster = roster_of(vec![(id("a"), sim::button(1, 1)), (id("b"), stale)]);
    match WhackAMole::start(&roster) {
        Err(ScenarioError::Require(RequireError::Incompatible { id: m, protocol })) => {
            assert_eq!(m.as_str(), "b");
            assert_eq!(protocol, PROTOCOL_VERSION.wrapping_add(1));
        }
        _ => panic!("the stale board must be refused as incompatible"),
    }
}
