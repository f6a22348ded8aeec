//! Door actuators, a debounced contact filter and an addressable LED ring
//! encoder for a relay-driven door controller.
//!
//! Everything here is pure logic: the hardware (GPIO lines, the SPI bus,
//! timers) is driven by the caller, which performs the relay steps and sends
//! the LED frames that this crate computes.

pub mod action;
pub mod debounce;
pub mod door;
pub mod garage_door;
pub mod led;
pub mod line;
pub mod relay;
pub mod stateful_door;

pub use action::{door_state, lock_door, unlock_door, Actuator};
pub use debounce::{Debouncer, Pending, SETTLE_DELAY_MS};
pub use door::Door;
pub use garage_door::{Command, GarageDoor};
pub use led::{closed_to_color, encode, Quadrant, Rgb, RgbRing};
pub use line::Level;
pub use relay::{pulse_steps, Relay, Relays, Step, PULSE_MS, STOP_SETTLE_MS};
pub use stateful_door::StatefulDoor;
