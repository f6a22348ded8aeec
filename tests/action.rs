use door_server::{
    door_state, lock_door, unlock_door, Actuator, Door, GarageDoor, Level, Relay, StatefulDoor, Step,
};

#[test]
fn unlock_plain_door_presses_opener() {
    let door = Actuator::Door(Door::new(Level::Low));
    assert_eq!(unlock_door(&door), Door::new(Level::Low).open());
    assert!(!door.supports_lock());
    assert_eq!(lock_door(&door), None);
}

#[test]
fn unlock_and_lock_garage_door() {
    let garage = GarageDoor::new(Level::High);
    let door = Actuator::Garage(garage);
    assert!(door.supports_lock());
    assert_eq!(unlock_door(&door), garage.open());
    assert_eq!(lock_door(&door), Some(garage.close()));
    assert_eq!(lock_door(&door).unwrap()[0], Step::Drive(Relay::Stop, Level::Low));
}

#[test]
fn actuator_contact_updates_state() {
    let mut door = Actuator::Garage(GarageDoor::new(Level::High));
    assert!(door.is_open());
    door.set_contact(Level::Low);
    assert!(door.is_closed());
    assert_eq!(lock_door(&door).unwrap()[0], Step::Drive(Relay::Close, Level::Low));
}

#[test]
fn lock_state_names() {
    assert_eq!(door_state(Some(true)), "locked");
    assert_eq!(door_state(Some(false)), "unlocked");
    assert_eq!(door_state(None), "unknown");
}
