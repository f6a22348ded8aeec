use crate::line::Level;
use crate::relay::{
    after_step, lemma_interlocked_concat, lemma_pulse_from_idle, lemma_run_concat, pulse,
    pulse_steps, run, stays_interlocked, Relay, Relays, Step, PULSE_MS, STOP_SETTLE_MS,
};
use crate::stateful_door::StatefulDoor;
use vstd::prelude::*;

verus! {

/// A garage door driven through the open, stop and close buttons of its
/// motor controller, with an active-low contact sensor.
///
/// `contact` is the last level read from the sensor; whether the door is open
/// is derived from it alone, never from the commands issued.
#[derive(Clone, Copy, Debug, PartialEq, Eq, Structural)]
pub struct GarageDoor {
    pub contact: Level,
}

/// A command to the motor controller.
#[derive(Clone, Copy, Debug, PartialEq, Eq, Structural)]
pub enum Command {
    Open,
    Stop,
    Close,
}

/// Every line released, so that all three idle `High`.
pub open spec fn setup_sequence() -> Seq<Step> {
    seq![Step::Release(Relay::Open), Step::Release(Relay::Stop), Step::Release(Relay::Close)]
}

/// A stop press, followed by the wait that lets the motor halt.
pub open spec fn stop_sequence() -> Seq<Step> {
    seq![
        Step::Drive(Relay::Stop, Level::Low),
        Step::Wait(PULSE_MS),
        Step::Drive(Relay::Stop, Level::High),
        Step::Wait(STOP_SETTLE_MS),
        Step::Release(Relay::Stop),
    ]
}

/// A press of the button for one direction; a door that reports itself open
/// may be moving, so it is stopped first.
pub open spec fn travel_plan(door_open: bool, relay: Relay) -> Seq<Step> {
    if door_open {
        stop_sequence() + pulse(relay)
    } else {
        pulse(relay)
    }
}

/// The steps of a command given while the contact reads `contact`.
pub open spec fn command_plan(contact: Level, command: Command) -> Seq<Step> {
    match command {
        Command::Open => travel_plan(contact != Level::Low, Relay::Open),
        Command::Stop => stop_sequence(),
        Command::Close => travel_plan(contact != Level::Low, Relay::Close),
    }
}

/// The steps of a series of commands, each with the contact reading at the
/// time it was given, performed one after the other.
pub open spec fn session_plan(commands: Seq<(Level, Command)>) -> Seq<Step>
    decreases commands.len(),
{
    if commands.len() == 0 {
        Seq::empty()
    } else {
        session_plan(commands.drop_last()) + command_plan(
            commands.last().0,
            commands.last().1,
        )
    }
}

impl GarageDoor {
    pub fn new(contact: Level) -> (r: GarageDoor)
        ensures
            r.contact == contact,
    {
        GarageDoor { contact }
    }

    pub open spec fn open_plan(self) -> Seq<Step> {
        command_plan(self.contact, Command::Open)
    }

    pub open spec fn close_plan(self) -> Seq<Step> {
        command_plan(self.contact, Command::Close)
    }

    /// The steps that bring all three lines to their idle `High` level.
    pub fn setup(&self) -> (r: Vec<Step>)
        ensures
            r@ == setup_sequence(),
    {
        let mut steps: Vec<Step> = Vec::new();
        steps.push(Step::Release(Relay::Open));
        steps.push(Step::Release(Relay::Stop));
        steps.push(Step::Release(Relay::Close));
        steps
    }

    /// The steps of a stop press and the settle wait after it.
    pub fn stop(&self) -> (r: Vec<Step>)
        ensures
            r@ == stop_sequence(),
    {
        let mut steps: Vec<Step> = Vec::new();
        steps.push(Step::Drive(Relay::Stop, Level::Low));
        steps.push(Step::Wait(PULSE_MS));
        steps.push(Step::Drive(Relay::Stop, Level::High));
        steps.push(Step::Wait(STOP_SETTLE_MS));
        steps.push(Step::Release(Relay::Stop));
        steps
    }

    /// The steps of an open command: a stop first if the door reports open.
    pub fn open(&self) -> (r: Vec<Step>)
        ensures
            r@ == self.open_plan(),
    {
        self.travel(Relay::Open)
    }

    /// The steps of a close command: a stop first if the door reports open.
    pub fn close(&self) -> (r: Vec<Step>)
        ensures
            r@ == self.close_plan(),
    {
        self.travel(Relay::Close)
    }

    fn travel(&self, relay: Relay) -> (r: Vec<Step>)
        ensures
            r@ == travel_plan(self.contact != Level::Low, relay),
    {
        let mut press = pulse_steps(relay);
        if self.is_open() {
            let mut steps = self.stop();
            steps.append(&mut press);
            steps
        } else {
            press
        }
    }
}

impl StatefulDoor for GarageDoor {
    open spec fn reports_closed(&self) -> bool {
        self.contact == Level::Low
    }

    fn is_closed(&self) -> (r: bool) {
        self.contact.is_low()
    }

    fn is_open(&self) -> (r: bool) {
        !self.is_closed()
    }
}

/// A stop press from idle keeps the interlock and returns to idle.
pub proof fn lemma_stop_from_idle(r: Relays)
    requires
        r.is_idle(),
    ensures
        stays_interlocked(r, stop_sequence()),
        run(r, stop_sequence()).is_idle(),
{
    let s = stop_sequence();
    let r1 = after_step(r, s[0]);
    let r2 = after_step(r1, s[1]);
    let r3 = after_step(r2, s[2]);
    let r4 = after_step(r3, s[3]);
    let r5 = after_step(r4, s[4]);
    let s1 = s.drop_first();
    let s2 = s1.drop_first();
    let s3 = s2.drop_first();
    let s4 = s3.drop_first();
    let s5 = s4.drop_first();
    assert(s1 =~= seq![s[1], s[2], s[3], s[4]]);
    assert(s2 =~= seq![s[2], s[3], s[4]]);
    assert(s3 =~= seq![s[3], s[4]]);
    assert(s4 =~= seq![s[4]]);
    assert(s5.len() == 0);
    assert(stays_interlocked(r5, s5));
    assert(stays_interlocked(r4, s4));
    assert(stays_interlocked(r3, s3));
    assert(stays_interlocked(r2, s2));
    assert(stays_interlocked(r1, s1));
    assert(run(r5, s5) == r5);
    assert(run(r4, s4) == r5);
    assert(run(r3, s3) == r5);
    assert(run(r2, s2) == r5);
    assert(run(r1, s1) == r5);
}

/// Any single command, started from idle, keeps the interlock and returns to idle.
pub proof fn lemma_command_from_idle(r: Relays, contact: Level, command: Command)
    requires
        r.is_idle(),
    ensures
        stays_interlocked(r, command_plan(contact, command)),
        run(r, command_plan(contact, command)).is_idle(),
{
    lemma_stop_from_idle(r);
    let relay = if command == Command::Open {
        Relay::Open
    } else {
        Relay::Close
    };
    if command != Command::Stop {
        if contact != Level::Low {
            let after_stop = run(r, stop_sequence());
            lemma_pulse_from_idle(after_stop, relay);
            lemma_interlocked_concat(r, stop_sequence(), pulse(relay));
            lemma_run_concat(r, stop_sequence(), pulse(relay));
        } else {
            lemma_pulse_from_idle(r, relay);
        }
    }
}

/// Releasing every line from a state with at most one line `Low` ends idle
/// and never has two lines `Low` on the way.
pub proof fn lemma_setup(r: Relays)
    requires
        r.interlocked(),
    ensures
        stays_interlocked(r, setup_sequence()),
        run(r, setup_sequence()).is_idle(),
{
    let s = setup_sequence();
    let r1 = after_step(r, s[0]);
    let r2 = after_step(r1, s[1]);
    let r3 = after_step(r2, s[2]);
    let s1 = s.drop_first();
    let s2 = s1.drop_first();
    let s3 = s2.drop_first();
    assert(s1 =~= seq![s[1], s[2]]);
    assert(s2 =~= seq![s[2]]);
    assert(s3.len() == 0);
    assert(stays_interlocked(r3, s3));
    assert(stays_interlocked(r2, s2));
    assert(stays_interlocked(r1, s1));
    assert(run(r3, s3) == r3);
    assert(run(r2, s2) == r3);
    assert(run(r1, s1) == r3);
}

/// Open and close never press their own button while the door reports open
/// until the stop button has been pressed, released, and the settle wait has
/// passed: the first step that drives the open or close line `Low` comes
/// after all of these.
pub proof fn lemma_stop_before_travel(door: GarageDoor, command: Command)
    requires
        door.contact != Level::Low,
        command != Command::Stop,
    ensures
        ({
            let plan = command_plan(door.contact, command);
            &&& plan[0] == Step::Drive(Relay::Stop, Level::Low)
            &&& plan[2] == Step::Drive(Relay::Stop, Level::High)
            &&& plan[3] == Step::Wait(STOP_SETTLE_MS)
            &&& forall|k: int|
                0 <= k < plan.len() && (plan[k] == Step::Drive(Relay::Open, Level::Low) || plan[k]
                    == Step::Drive(Relay::Close, Level::Low)) ==> k > 3
        }),
{
}

/// Whatever series of commands is given, one after the other, and whatever the
/// contact reads at each, the relay outputs never have more than one line
/// `Low` at a time, from setup on, and all idle `High` at the end.
pub proof fn lemma_commands_interlocked(start: Relays, commands: Seq<(Level, Command)>)
    requires
        start.interlocked(),
    ensures
        stays_interlocked(start, setup_sequence() + session_plan(commands)),
        run(start, setup_sequence() + session_plan(commands)).is_idle(),
    decreases commands.len(),
{
    lemma_setup(start);
    if commands.len() == 0 {
        assert(setup_sequence() + session_plan(commands) =~= setup_sequence());
    } else {
        let earlier = commands.drop_last();
        let (contact, command) = commands.last();
        lemma_commands_interlocked(start, earlier);
        let before = setup_sequence() + session_plan(earlier);
        let last = command_plan(contact, command);
        lemma_command_from_idle(run(start, before), contact, command);
        lemma_interlocked_concat(start, before, last);
        lemma_run_concat(start, before, last);
        assert(before + last =~= setup_sequence() + session_plan(commands));
    }
}

} // verus!
