use modit::coin::{coin_pass, fresh_outbox};
use modit::proto::Event;
use modit::button_board::{poll_button, PollOutcome, PollState};
use modit::button_board::{button_edge, led_level, pass_presses, PressOutcome, DEBOUNCE_MS};
use modit::coin::{
    coin_board, coin_command, coin_pulse, finished_burst, CoinCommandOutcome, BURST_GAP_MS,
    INTRA_BURST_MS, PULSE_DEBOUNCE_MS, RECOGNITION_MS,
};
use modit::input::EdgeLatch;
use modit::proto::{Command, Role};

#[test]
fn the_burst_timing_separates_pulses_from_coins() {
    assert!(PULSE_DEBOUNCE_MS < INTRA_BURST_MS);
    assert!(INTRA_BURST_MS < BURST_GAP_MS && BURST_GAP_MS < RECOGNITION_MS);
}

#[test]
fn a_three_pulse_coin_is_reported_once_as_three() {
    let mut pulses = EdgeLatch::new();
    coin_pulse(&mut pulses, 1_000);
    coin_pulse(&mut pulses, 1_003); // bounce
    coin_pulse(&mut pulses, 1_100);
    coin_pulse(&mut pulses, 1_200);
    assert_eq!(finished_burst(&mut pulses, 1_400), None);
    assert_eq!(pulses.pending(), 3);
    assert_eq!(finished_burst(&mut pulses, 1_500), Some(3));
    assert_eq!(finished_burst(&mut pulses, 2_000), None);
}

#[test]
fn an_absurd_burst_saturates() {
    let mut pulses = EdgeLatch::new();
    for i in 0..300u32 {
        coin_pulse(&mut pulses, i * 10);
    }
    assert_eq!(finished_burst(&mut pulses, 10_000), Some(255));
}

#[test]
fn a_coin_board_obeys_what_it_can() {
    let mut pulses = EdgeLatch::new();
    coin_pulse(&mut pulses, 10);
    assert_eq!(
        coin_command(&mut pulses, Command::SetOutput { channel: 2, on: true }),
        CoinCommandOutcome::NoOutputs { channel: 2 }
    );
    assert_eq!(pulses.pending(), 1);
    let hello = coin_command(&mut pulses, Command::Describe);
    assert_eq!(hello, CoinCommandOutcome::Hello(coin_board()));
    assert_eq!(coin_board().role, Role::Coin);
    assert_eq!(
        coin_command(&mut pulses, Command::Reset),
        CoinCommandOutcome::Discarded { dropped: 1 }
    );
    assert_eq!(pulses.pending(), 0);
}

#[test]
fn a_held_button_is_one_press() {
    let mut presses = EdgeLatch::new();
    button_edge(&mut presses, true, 1_000);
    button_edge(&mut presses, true, 1_002);
    button_edge(&mut presses, false, 1_000 + 120);
    button_edge(&mut presses, true, 1_000 + 121);
    assert_eq!(presses.pending(), 1);
    button_edge(&mut presses, true, 1_000 + 120 + DEBOUNCE_MS);
    assert_eq!(presses.pending(), 2);
}

#[test]
fn the_led_follows_the_first_byte() {
    assert_eq!(led_level(&[0]), Some(false));
    assert_eq!(led_level(&[1, 0]), Some(true));
    assert_eq!(led_level(&[7]), Some(true));
    assert_eq!(led_level(&[]), None);
}

#[test]
fn presses_nobody_hears_are_discarded() {
    let mut presses = EdgeLatch::new();
    assert_eq!(pass_presses(&mut presses, true), PressOutcome::Idle);
    button_edge(&mut presses, true, 1_000);
    button_edge(&mut presses, true, 2_000);
    assert_eq!(pass_presses(&mut presses, true), PressOutcome::Notify);
    assert_eq!(presses.pending(), 1);
    button_edge(&mut presses, true, 3_000);
    assert_eq!(
        pass_presses(&mut presses, false),
        PressOutcome::Discarded { dropped: 2 }
    );
    assert_eq!(presses.pending(), 0);
}

#[test]
fn a_coin_board_introduces_itself_first_and_sends_one_event_per_pass() {
    let mut pulses = EdgeLatch::new();
    let mut outbox = fresh_outbox();
    // Nobody subscribed: nothing is sent, the coin still joins the queue.
    coin_pulse(&mut pulses, 1_000);
    coin_pulse(&mut pulses, 1_100);
    assert_eq!(coin_pass(&mut pulses, &mut outbox, 1_500, false), None);
    assert_eq!(outbox.len(), 2);
    assert_eq!(
        coin_pass(&mut pulses, &mut outbox, 1_600, true),
        Some(Event::Hello(coin_board()))
    );
    assert_eq!(
        coin_pass(&mut pulses, &mut outbox, 1_700, true),
        Some(Event::Coin { channel: 0, pulses: 2 })
    );
    assert_eq!(coin_pass(&mut pulses, &mut outbox, 1_800, true), None);
}

#[test]
fn a_polled_button_counts_rising_edges_past_the_debounce() {
    let s = PollState::new();
    let (s, o) = poll_button(s, true, 100, true);
    assert_eq!(o, PollOutcome::Notify);
    assert_eq!(s.last_pressed_ms, 100);
    // Held: no new edge.
    let (s, o) = poll_button(s, true, 500, true);
    assert_eq!(o, PollOutcome::Idle);
    let (s, _) = poll_button(s, false, 510, true);
    // A new edge inside the debounce (exactly 50 ms is not past it).
    let (s, o) = poll_button(s, true, 150, true);
    assert_eq!(o, PollOutcome::Idle);
    let (s, _) = poll_button(s, false, 160, true);
    let (s, o) = poll_button(s, true, 151 + 50, false);
    assert_eq!(o, PollOutcome::Unheard);
    assert_eq!(s.last_pressed_ms, 201);
    assert!(s.was_high);
}
