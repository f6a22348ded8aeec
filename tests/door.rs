use door_server::{pulse_steps, Door, Level, Relay, Relays, StatefulDoor, Step};

#[test]
fn door_open_is_one_pulse() {
    let door = Door::new(Level::Low);
    assert_eq!(
        door.open(),
        vec![
            Step::Drive(Relay::Open, Level::Low),
            Step::Wait(250),
            Step::Drive(Relay::Open, Level::High),
            Step::Release(Relay::Open),
        ]
    );
    assert_eq!(door.open(), pulse_steps(Relay::Open));
}

#[test]
fn door_trigger_returns_to_idle() {
    let door = Door::new(Level::High);
    let mut relays = Relays::idle();
    for step in door.setup() {
        relays.apply(step);
    }
    let mut went_low = false;
    for step in door.open() {
        relays.apply(step);
        went_low |= relays.open == Level::Low;
    }
    assert!(went_low);
    assert_eq!(relays, Relays::idle());
}

#[test]
fn door_state_follows_contact() {
    let closed = Door::new(Level::Low);
    assert!(closed.is_closed());
    assert!(!closed.is_open());
    let open = Door::new(Level::High);
    assert!(open.is_open());
    assert!(!open.is_closed());
}
