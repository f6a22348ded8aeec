use door_server::{GarageDoor, Level, Relay, Relays, StatefulDoor, Step, PULSE_MS, STOP_SETTLE_MS};

fn low_count(r: &Relays) -> usize {
    [r.open, r.stop, r.close].iter().filter(|l| **l == Level::Low).count()
}

fn stop_then(relay: Relay) -> Vec<Step> {
    vec![
        Step::Drive(Relay::Stop, Level::Low),
        Step::Wait(250),
        Step::Drive(Relay::Stop, Level::High),
        Step::Wait(500),
        Step::Release(Relay::Stop),
        Step::Drive(relay, Level::Low),
        Step::Wait(250),
        Step::Drive(relay, Level::High),
        Step::Release(relay),
    ]
}

#[test]
fn close_while_open_stops_first() {
    let door = GarageDoor::new(Level::High);
    assert!(door.is_open());
    assert_eq!(door.close(), stop_then(Relay::Close));
}

#[test]
fn close_while_open_keeps_open_and_close_high_during_stop() {
    let door = GarageDoor::new(Level::High);
    let mut relays = Relays::idle();
    for step in door.close().into_iter().take(5) {
        relays.apply(step);
        assert_eq!(relays.open, Level::High);
        assert_eq!(relays.close, Level::High);
    }
}

#[test]
fn open_while_open_stops_first() {
    let door = GarageDoor::new(Level::High);
    let plan = door.open();
    assert_eq!(plan, stop_then(Relay::Open));
    let first_travel = plan
        .iter()
        .position(|s| *s == Step::Drive(Relay::Open, Level::Low) || *s == Step::Drive(Relay::Close, Level::Low))
        .unwrap();
    assert!(first_travel > 3);
    assert_eq!(plan[3], Step::Wait(STOP_SETTLE_MS));
}

#[test]
fn open_while_closed_presses_open_only() {
    let door = GarageDoor::new(Level::Low);
    assert!(door.is_closed());
    assert_eq!(
        door.open(),
        vec![
            Step::Drive(Relay::Open, Level::Low),
            Step::Wait(PULSE_MS),
            Step::Drive(Relay::Open, Level::High),
            Step::Release(Relay::Open),
        ]
    );
}

#[test]
fn close_while_closed_presses_close_only() {
    let door = GarageDoor::new(Level::Low);
    assert_eq!(
        door.close(),
        vec![
            Step::Drive(Relay::Close, Level::Low),
            Step::Wait(250),
            Step::Drive(Relay::Close, Level::High),
            Step::Release(Relay::Close),
        ]
    );
}

#[test]
fn stop_waits_after_release() {
    let door = GarageDoor::new(Level::Low);
    assert_eq!(
        door.stop(),
        vec![
            Step::Drive(Relay::Stop, Level::Low),
            Step::Wait(250),
            Step::Drive(Relay::Stop, Level::High),
            Step::Wait(500),
            Step::Release(Relay::Stop),
        ]
    );
}

#[test]
fn setup_releases_all_lines() {
    let door = GarageDoor::new(Level::Low);
    let mut relays = Relays { open: Level::Low, stop: Level::High, close: Level::High };
    for step in door.setup() {
        relays.apply(step);
    }
    assert_eq!(relays, Relays::idle());
}

#[test]
fn command_series_never_has_two_lines_low() {
    let mut relays = Relays::idle();
    let mut door = GarageDoor::new(Level::High);
    for step in door.setup() {
        relays.apply(step);
    }
    let contacts = [Level::High, Level::Low, Level::High, Level::High, Level::Low];
    for (n, contact) in contacts.iter().enumerate() {
        door.contact = *contact;
        let plan = match n % 3 {
            0 => door.open(),
            1 => door.close(),
            _ => door.stop(),
        };
        for step in plan {
            relays.apply(step);
            assert!(low_count(&relays) <= 1);
        }
        assert_eq!(relays, Relays::idle());
    }
}

#[test]
fn contact_decides_open_and_closed() {
    let mut door = GarageDoor::new(Level::Low);
    assert!(door.is_closed());
    assert!(!door.is_open());
    door.contact = Level::High;
    assert!(!door.is_closed());
    assert!(door.is_open());
}
