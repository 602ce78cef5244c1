use esp_rf_ook2::arbiter::{
    Action, Arbiter, Event, Fatal, Outcome, Stage, LIVENESS_CEILING_US, MIN_PUBLISH_INTERVAL_US,
    RESYNC_INTERVAL_US, STABILITY_THRESHOLD,
};
use esp_rf_ook2::decoder::{DecodeError, Parsed};
use esp_rf_ook2::pulse::{Level, Symbol};

const SECOND: u64 = 1_000_000;

fn reading(temp_int: i32, humidity: i32) -> Parsed {
    Parsed::new("Nexus-TH", 1, temp_int, 5, humidity, 1, 1, 90)
}

fn see(arbiter: &mut Arbiter, r: Parsed, now: u64) -> Action {
    arbiter.step(Event::Reading { reading: r, now })
}

fn wire_frame(temperature: u32, humidity: u32) -> Vec<Symbol> {
    let bits: u64 = (0x5a << 28) | (1 << 27) | ((temperature as u64) << 12) | (0xf << 8)
        | humidity as u64;
    let mut frame = Vec::new();
    for i in (0..36).rev() {
        let pause = if (bits >> i) & 1 == 1 { 1900 } else { 950 };
        frame.push(Symbol::new(Level::High, 500, Level::Low, pause));
    }
    frame.push(Symbol::new(Level::High, 500, Level::Low, 0));
    frame
}

/// An arbiter that has published `r` at time `at`.
fn published(r: Parsed, at: u64) -> Arbiter {
    let mut arbiter = Arbiter::new(at.saturating_sub(10 * SECOND));
    see(&mut arbiter, r, at);
    see(&mut arbiter, r, at);
    assert!(matches!(see(&mut arbiter, r, at), Action::Publish { .. }));
    assert!(matches!(arbiter.step(Event::Published { at }), Action::Idle));
    assert_eq!(arbiter.stage(), Stage::Published);
    assert_eq!(arbiter.last_publish(), at);
    arbiter
}

#[test]
fn reference_settings() {
    assert_eq!(STABILITY_THRESHOLD, 3);
    assert_eq!(MIN_PUBLISH_INTERVAL_US, 5 * SECOND);
    assert_eq!(LIVENESS_CEILING_US, 360 * SECOND);
    assert_eq!(RESYNC_INTERVAL_US, 10_000 * SECOND);
}

#[test]
fn new_arbiter_has_seen_nothing() {
    let arbiter = Arbiter::new(42);
    assert_eq!(arbiter.stage(), Stage::Unset);
    assert_eq!(arbiter.count(), 0);
    assert!(arbiter.candidate().is_none());
    assert_eq!(arbiter.last_publish(), 42);
    assert_eq!(arbiter.last_resync(), 42);
    assert!(!arbiter.is_halted());
}

#[test]
fn first_reading_starts_the_count() {
    let mut arbiter = Arbiter::new(0);
    assert!(matches!(see(&mut arbiter, reading(21, 45), SECOND), Action::Idle));
    assert_eq!(arbiter.stage(), Stage::Tracking(1));
    assert!(arbiter.candidate().unwrap().equal(&reading(21, 45)));
}

#[test]
fn first_reading_like_the_placeholder_starts_the_count_too() {
    let mut arbiter = Arbiter::new(0);
    assert!(matches!(see(&mut arbiter, Parsed::default(), SECOND), Action::Idle));
    assert_eq!(arbiter.stage(), Stage::Tracking(1));
}

#[test]
fn debounce_three_then_fourth_then_change() {
    let r = reading(21, 45);
    let mut arbiter = Arbiter::new(0);
    assert!(matches!(see(&mut arbiter, r, 5 * SECOND), Action::Idle));
    assert_eq!(arbiter.stage(), Stage::Tracking(1));
    assert!(matches!(see(&mut arbiter, r, 6 * SECOND), Action::Idle));
    assert_eq!(arbiter.stage(), Stage::Tracking(2));
    match see(&mut arbiter, r, 7 * SECOND) {
        Action::Publish { reading, at } => {
            assert!(reading.equal(&r));
            assert_eq!(reading.id, 90);
            assert_eq!(at, 7 * SECOND);
        }
        other => panic!("expected a publication, got {:?}", other),
    }
    assert_eq!(arbiter.stage(), Stage::LockedPendingPublish);
    assert!(matches!(arbiter.step(Event::Published { at: 7 * SECOND }), Action::Idle));
    assert_eq!(arbiter.stage(), Stage::Published);
    assert_eq!(arbiter.last_publish(), 7 * SECOND);

    assert!(matches!(see(&mut arbiter, r, 7 * SECOND + 1), Action::Idle));
    assert_eq!(arbiter.stage(), Stage::Published);
    assert_eq!(arbiter.last_publish(), 7 * SECOND);

    assert_eq!(arbiter.count(), 3);
    let other = reading(22, 45);
    assert!(matches!(see(&mut arbiter, other, 8 * SECOND), Action::Idle));
    assert_eq!(arbiter.stage(), Stage::Tracking(1));
    assert_eq!(arbiter.count(), 1);
    assert!(arbiter.candidate().unwrap().equal(&other));
}

#[test]
fn published_reading_is_not_published_again() {
    let r = reading(21, 45);
    let mut arbiter = published(r, 100 * SECOND);
    for k in 1..50u64 {
        assert!(matches!(see(&mut arbiter, r, (100 + 7 * k) * SECOND), Action::Idle));
        assert_eq!(arbiter.stage(), Stage::Published);
    }
    assert_eq!(arbiter.last_publish(), 100 * SECOND);
}

#[test]
fn reading_that_returns_is_published_again() {
    let r = reading(21, 45);
    let mut arbiter = published(r, 100 * SECOND);
    see(&mut arbiter, reading(22, 45), 110 * SECOND);
    assert!(matches!(see(&mut arbiter, r, 111 * SECOND), Action::Idle));
    assert_eq!(arbiter.stage(), Stage::Tracking(1));
    assert!(matches!(see(&mut arbiter, r, 112 * SECOND), Action::Idle));
    assert!(matches!(see(&mut arbiter, r, 113 * SECOND), Action::Publish { at, .. } if at == 113 * SECOND));
}

#[test]
fn interrupted_run_starts_over() {
    let a = reading(21, 45);
    let b = reading(21, 46);
    let mut arbiter = Arbiter::new(0);
    see(&mut arbiter, a, 10 * SECOND);
    see(&mut arbiter, a, 11 * SECOND);
    assert_eq!(arbiter.stage(), Stage::Tracking(2));
    assert!(matches!(see(&mut arbiter, b, 12 * SECOND), Action::Idle));
    assert_eq!(arbiter.stage(), Stage::Tracking(1));
    assert!(matches!(see(&mut arbiter, a, 13 * SECOND), Action::Idle));
    assert_eq!(arbiter.stage(), Stage::Tracking(1));
    assert!(matches!(see(&mut arbiter, a, 14 * SECOND), Action::Idle));
    assert!(matches!(see(&mut arbiter, a, 15 * SECOND), Action::Publish { .. }));
}

#[test]
fn debounce_ignores_id_channel_and_battery() {
    let mut arbiter = Arbiter::new(0);
    see(&mut arbiter, Parsed::new("Nexus-TH", 1, 21, 5, 45, 1, 1, 90), 10 * SECOND);
    see(&mut arbiter, Parsed::new("Nexus-TH", 1, 21, 5, 45, 0, 1, 91), 11 * SECOND);
    assert_eq!(arbiter.stage(), Stage::Tracking(2));
    assert_eq!(arbiter.candidate().unwrap().id, 90);
    match see(&mut arbiter, Parsed::new("Nexus-TH", 1, 21, 5, 45, 1, 1, 92), 12 * SECOND) {
        Action::Publish { reading, .. } => assert_eq!(reading.id, 92),
        other => panic!("expected a publication, got {:?}", other),
    }
}

#[test]
fn publication_waits_for_the_minimum_interval() {
    let r = reading(21, 45);
    let mut arbiter = Arbiter::new(0);
    see(&mut arbiter, r, SECOND);
    see(&mut arbiter, r, 2 * SECOND);
    assert!(matches!(see(&mut arbiter, r, 5 * SECOND - 1), Action::Idle));
    assert_eq!(arbiter.stage(), Stage::LockedPendingPublish);
    assert!(matches!(see(&mut arbiter, r, 5 * SECOND), Action::Publish { at, .. } if at == 5 * SECOND));
    assert_eq!(arbiter.stage(), Stage::LockedPendingPublish);
    assert_eq!(arbiter.last_publish(), 0);
}

#[test]
fn failed_publication_is_tried_again_on_the_next_reading() {
    let r = reading(21, 45);
    let mut arbiter = Arbiter::new(0);
    see(&mut arbiter, r, 10 * SECOND);
    see(&mut arbiter, r, 11 * SECOND);
    assert!(matches!(see(&mut arbiter, r, 12 * SECOND), Action::Publish { .. }));
    assert!(matches!(arbiter.step(Event::PublishFailed), Action::Idle));
    assert_eq!(arbiter.stage(), Stage::LockedPendingPublish);
    assert_eq!(arbiter.last_publish(), 0);
    assert!(matches!(see(&mut arbiter, r, 12 * SECOND + 1), Action::Publish { at, .. } if at == 12 * SECOND + 1));
    assert!(matches!(arbiter.step(Event::Published { at: 12 * SECOND + 1 }), Action::Idle));
    assert_eq!(arbiter.last_publish(), 12 * SECOND + 1);
    assert_eq!(arbiter.stage(), Stage::Published);
}

#[test]
fn owed_publication_is_dropped_when_the_reading_changes() {
    let r = reading(21, 45);
    let mut arbiter = Arbiter::new(0);
    see(&mut arbiter, r, SECOND);
    see(&mut arbiter, r, 2 * SECOND);
    see(&mut arbiter, r, 3 * SECOND);
    assert_eq!(arbiter.stage(), Stage::LockedPendingPublish);
    assert!(matches!(see(&mut arbiter, reading(30, 45), 20 * SECOND), Action::Idle));
    assert_eq!(arbiter.stage(), Stage::Tracking(1));
}

#[test]
fn report_of_a_publication_that_was_not_owed_is_ignored() {
    let mut arbiter = Arbiter::new(7);
    assert!(matches!(arbiter.step(Event::Published { at: 99 }), Action::Idle));
    assert_eq!(arbiter.last_publish(), 7);
    see(&mut arbiter, reading(21, 45), 8);
    assert!(matches!(arbiter.step(Event::Published { at: 99 }), Action::Idle));
    assert_eq!(arbiter.last_publish(), 7);
    assert_eq!(arbiter.stage(), Stage::Tracking(1));
}

#[test]
fn silence_changes_nothing() {
    let mut arbiter = Arbiter::new(0);
    see(&mut arbiter, reading(21, 45), SECOND);
    assert!(matches!(arbiter.step(Event::Silence), Action::Idle));
    assert_eq!(arbiter.stage(), Stage::Tracking(1));
    assert_eq!(arbiter.last_publish(), 0);
}

#[test]
fn tick_lets_the_loop_receive() {
    let mut arbiter = Arbiter::new(1000);
    assert!(matches!(arbiter.step(Event::Tick { now: 1000 }), Action::Receive));
    assert!(matches!(arbiter.step(Event::Tick { now: 1000 + 360 * SECOND }), Action::Receive));
    assert!(!arbiter.is_halted());
}

#[test]
fn stall_is_fatal_once() {
    let mut arbiter = Arbiter::new(1000);
    let late = 1000 + 360 * SECOND + 1;
    assert!(matches!(
        arbiter.step(Event::Tick { now: late }),
        Action::Fatal(Fatal::PublishStalled)
    ));
    assert!(arbiter.is_halted());
    assert!(matches!(arbiter.step(Event::Tick { now: late + 1 }), Action::Idle));
    assert!(matches!(arbiter.step(Event::Tick { now: late + 1000 * SECOND }), Action::Idle));
    assert!(matches!(see(&mut arbiter, reading(21, 45), late + 2), Action::Idle));
    assert!(matches!(arbiter.step(Event::ResyncFailed { now: late + 3 }), Action::Idle));
    assert_eq!(arbiter.stage(), Stage::Unset);
    assert!(arbiter.is_halted());
}

#[test]
fn stall_counts_from_the_last_publication() {
    let r = reading(21, 45);
    let mut arbiter = published(r, 300 * SECOND);
    assert!(matches!(arbiter.step(Event::Tick { now: 660 * SECOND }), Action::Receive));
    assert!(matches!(
        arbiter.step(Event::Tick { now: 660 * SECOND + 1 }),
        Action::Fatal(Fatal::PublishStalled)
    ));
}

#[test]
fn failed_publications_do_not_hold_off_the_stall() {
    let r = reading(21, 45);
    let mut arbiter = Arbiter::new(0);
    let mut now = 0;
    let mut fatal = 0;
    while now < 400 * SECOND {
        now += SECOND;
        match arbiter.step(Event::Tick { now }) {
            Action::Receive => {}
            Action::Fatal(Fatal::PublishStalled) => {
                fatal += 1;
                assert_eq!(now, 361 * SECOND);
            }
            Action::Idle => assert!(arbiter.is_halted()),
            other => panic!("unexpected {:?}", other),
        }
        if let Action::Publish { .. } = see(&mut arbiter, r, now) {
            arbiter.step(Event::PublishFailed);
        }
    }
    assert_eq!(fatal, 1);
}

/// An arbiter started at zero whose last publication was at `at`.
fn started_at_zero_published(at: u64) -> Arbiter {
    let r = reading(21, 45);
    let mut arbiter = Arbiter::new(0);
    see(&mut arbiter, r, at);
    see(&mut arbiter, r, at);
    assert!(matches!(see(&mut arbiter, r, at), Action::Publish { .. }));
    arbiter.step(Event::Published { at });
    assert_eq!(arbiter.last_publish(), at);
    assert_eq!(arbiter.last_resync(), 0);
    arbiter
}

#[test]
fn resync_falls_due_after_the_interval() {
    let mut arbiter = started_at_zero_published(RESYNC_INTERVAL_US - SECOND);
    assert!(matches!(
        arbiter.step(Event::Tick { now: RESYNC_INTERVAL_US }),
        Action::Receive
    ));
    assert!(matches!(
        arbiter.step(Event::Tick { now: RESYNC_INTERVAL_US + 1 }),
        Action::Resync
    ));
    assert_eq!(arbiter.last_resync(), 0);
    assert!(matches!(
        arbiter.step(Event::Resynced { now: RESYNC_INTERVAL_US + 5 }),
        Action::Receive
    ));
    assert_eq!(arbiter.last_resync(), RESYNC_INTERVAL_US + 5);
    assert!(matches!(
        arbiter.step(Event::Tick { now: RESYNC_INTERVAL_US + 6 }),
        Action::Receive
    ));
}

#[test]
fn resync_comes_before_the_liveness_check() {
    let mut arbiter = Arbiter::new(0);
    let now = RESYNC_INTERVAL_US + 1;
    assert!(matches!(arbiter.step(Event::Tick { now }), Action::Resync));
    assert!(!arbiter.is_halted());
    assert!(matches!(
        arbiter.step(Event::Resynced { now }),
        Action::Fatal(Fatal::PublishStalled)
    ));
    assert!(arbiter.is_halted());
    assert_eq!(arbiter.last_resync(), now);
}

#[test]
fn resynced_clock_is_checked_for_a_stall() {
    let mut arbiter = started_at_zero_published(100 * SECOND);
    assert!(matches!(
        arbiter.step(Event::Resynced { now: 460 * SECOND }),
        Action::Receive
    ));
    assert_eq!(arbiter.last_resync(), 460 * SECOND);
    assert!(matches!(
        arbiter.step(Event::Resynced { now: 460 * SECOND + 1 }),
        Action::Fatal(Fatal::PublishStalled)
    ));
}

#[test]
fn failed_resync_is_not_fatal_and_is_asked_for_again() {
    let mut arbiter = started_at_zero_published(RESYNC_INTERVAL_US - SECOND);
    let now = RESYNC_INTERVAL_US + 1;
    assert!(matches!(arbiter.step(Event::Tick { now }), Action::Resync));
    assert!(matches!(
        arbiter.step(Event::ResyncFailed { now: now + SECOND }),
        Action::Receive
    ));
    assert!(!arbiter.is_halted());
    assert_eq!(arbiter.last_resync(), 0);
    assert!(matches!(
        arbiter.step(Event::Tick { now: now + 2 * SECOND }),
        Action::Resync
    ));
}

#[test]
fn failed_resync_is_followed_by_the_liveness_check() {
    let mut arbiter = started_at_zero_published(100 * SECOND);
    assert!(matches!(
        arbiter.step(Event::ResyncFailed { now: 460 * SECOND + 1 }),
        Action::Fatal(Fatal::PublishStalled)
    ));
    assert!(arbiter.is_halted());
}

#[test]
fn clock_set_back_neither_publishes_nor_halts() {
    let r = reading(21, 45);
    let mut arbiter = Arbiter::new(1000 * SECOND);
    assert!(matches!(arbiter.step(Event::Resynced { now: 10 * SECOND }), Action::Receive));
    assert_eq!(arbiter.last_resync(), 10 * SECOND);
    see(&mut arbiter, r, 11 * SECOND);
    see(&mut arbiter, r, 12 * SECOND);
    assert!(matches!(see(&mut arbiter, r, 500 * SECOND), Action::Idle));
    assert_eq!(arbiter.stage(), Stage::LockedPendingPublish);
    assert!(matches!(see(&mut arbiter, r, 1005 * SECOND), Action::Publish { .. }));
}

#[test]
fn frame_of_the_wrong_length_is_dropped_silently() {
    let frame = wire_frame(215, 45);
    let mut arbiter = Arbiter::new(0);
    see(&mut arbiter, reading(21, 45), SECOND);
    for len in [0usize, 1, 36, 38, 64] {
        assert!(matches!(arbiter.observe_frame(&frame, len, 1, 2 * SECOND), Outcome::Dropped));
        assert_eq!(arbiter.stage(), Stage::Tracking(1));
        assert_eq!(arbiter.last_publish(), 0);
    }
    assert!(matches!(arbiter.observe_frame(&[], 0, 1, 2 * SECOND), Outcome::Dropped));
}

#[test]
fn frame_that_does_not_decode_is_rejected() {
    let mut arbiter = Arbiter::new(0);
    let mut frame = wire_frame(215, 45);
    frame[14] = Symbol::new(Level::High, 500, Level::Low, 1300);
    assert!(matches!(
        arbiter.observe_frame(&frame, 37, 1, SECOND),
        Outcome::Rejected(DecodeError::SampleOutOfRange(1300))
    ));
    frame[14] = Symbol::new(Level::High, 100, Level::Low, 950);
    assert!(matches!(
        arbiter.observe_frame(&frame, 37, 1, SECOND),
        Outcome::Rejected(DecodeError::PulseOutOfRange(100))
    ));
    assert!(matches!(
        arbiter.observe_frame(&wire_frame(215, 45), 37, 2, SECOND),
        Outcome::Rejected(DecodeError::WrongChannel(1))
    ));
    assert!(matches!(
        arbiter.observe_frame(&wire_frame(700, 45), 37, 1, SECOND),
        Outcome::Rejected(DecodeError::TempOutOfRange(1, 70))
    ));
    assert_eq!(arbiter.stage(), Stage::Unset);
}

#[test]
fn frames_are_debounced() {
    let frame = wire_frame(215, 45);
    let mut arbiter = Arbiter::new(0);
    assert!(matches!(
        arbiter.observe_frame(&frame, 37, 1, 10 * SECOND),
        Outcome::Accepted(_, Action::Idle)
    ));
    assert!(matches!(
        arbiter.observe_frame(&frame, 37, 1, 11 * SECOND),
        Outcome::Accepted(_, Action::Idle)
    ));
    match arbiter.observe_frame(&frame, 37, 1, 12 * SECOND) {
        Outcome::Accepted(seen, Action::Publish { reading, at }) => {
            assert_eq!(seen.id, reading.id);
            assert!(seen.equal(&reading));
            assert_eq!(at, 12 * SECOND);
            assert_eq!(reading.model(), "Nexus-TH");
            assert_eq!((reading.sign, reading.temp_int, reading.temp_decimal), (1, 21, 5));
            assert_eq!(reading.humidity, 45);
            assert_eq!((reading.battery_ok, reading.channel, reading.id), (1, 1, 0x5a));
        }
        other => panic!("expected a publication, got {:?}", other),
    }
    arbiter.step(Event::Published { at: 12 * SECOND });
    assert!(matches!(
        arbiter.observe_frame(&frame, 37, 1, 20 * SECOND),
        Outcome::Accepted(_, Action::Idle)
    ));
    assert!(matches!(
        arbiter.observe_frame(&wire_frame(216, 45), 37, 1, 21 * SECOND),
        Outcome::Accepted(_, Action::Idle)
    ));
    assert_eq!(arbiter.stage(), Stage::Tracking(1));
}
