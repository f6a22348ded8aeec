use crate::line::Level;
use vstd::prelude::*;

verus! {

/// How long a relay line is held `Low` for one button press, in milliseconds.
pub const PULSE_MS: u64 = 250;

/// How long the motor controller is given to halt after a stop press, in milliseconds.
pub const STOP_SETTLE_MS: u64 = 500;

/// One of the relay outputs of an actuator. A plain door has only `Open`.
#[derive(Clone, Copy, Debug, PartialEq, Eq, Structural)]
pub enum Relay {
    Open,
    Stop,
    Close,
}

/// One action on the relay outputs, performed in order by whoever owns the lines.
#[derive(Clone, Copy, Debug, PartialEq, Eq, Structural)]
pub enum Step {
    /// Switch the line to output and drive it to the level.
    Drive(Relay, Level),
    /// Block for the given number of milliseconds.
    Wait(u64),
    /// Switch the line back to input with its pull-up, so that it idles `High`.
    Release(Relay),
}

/// The levels of the three relay outputs.
#[derive(Clone, Copy, Debug, PartialEq, Eq, Structural)]
pub struct Relays {
    pub open: Level,
    pub stop: Level,
    pub close: Level,
}

impl Relays {
    pub open spec fn level(self, relay: Relay) -> Level {
        match relay {
            Relay::Open => self.open,
            Relay::Stop => self.stop,
            Relay::Close => self.close,
        }
    }

    pub open spec fn with(self, relay: Relay, level: Level) -> Relays {
        match relay {
            Relay::Open => Relays { open: level, ..self },
            Relay::Stop => Relays { stop: level, ..self },
            Relay::Close => Relays { close: level, ..self },
        }
    }

    /// How many of the three outputs are `Low`.
    pub open spec fn low_count(self) -> nat {
        (if self.open == Level::Low { 1nat } else { 0nat }) + (if self.stop == Level::Low {
            1nat
        } else {
            0nat
        }) + (if self.close == Level::Low { 1nat } else { 0nat })
    }

    /// The interlock: never two buttons pressed at once.
    pub open spec fn interlocked(self) -> bool {
        self.low_count() <= 1
    }

    /// No relay energised.
    pub open spec fn is_idle(self) -> bool {
        &&& self.open == Level::High
        &&& self.stop == Level::High
        &&& self.close == Level::High
    }

    /// All three outputs at their idle level.
    pub fn idle() -> (r: Relays)
        ensures
            r.is_idle(),
    {
        Relays { open: Level::High, stop: Level::High, close: Level::High }
    }

    /// Records the effect of one step on the outputs.
    pub fn apply(&mut self, step: Step)
        ensures
            *final(self) == after_step(*old(self), step),
    {
        match step {
            Step::Drive(Relay::Open, level) => self.open = level,
            Step::Drive(Relay::Stop, level) => self.stop = level,
            Step::Drive(Relay::Close, level) => self.close = level,
            Step::Wait(_) => {},
            Step::Release(Relay::Open) => self.open = Level::High,
            Step::Release(Relay::Stop) => self.stop = Level::High,
            Step::Release(Relay::Close) => self.close = Level::High,
        }
    }
}

/// The outputs after one step: a released line is pulled up to `High`.
pub open spec fn after_step(r: Relays, step: Step) -> Relays {
    match step {
        Step::Drive(relay, level) => r.with(relay, level),
        Step::Wait(_) => r,
        Step::Release(relay) => r.with(relay, Level::High),
    }
}

/// The outputs after performing all the steps in order.
pub open spec fn run(r: Relays, steps: Seq<Step>) -> Relays
    decreases steps.len(),
{
    if steps.len() == 0 {
        r
    } else {
        run(after_step(r, steps[0]), steps.drop_first())
    }
}

/// Every state passed through while performing the steps, the first and the
/// last included, has at most one output `Low`.
pub open spec fn stays_interlocked(r: Relays, steps: Seq<Step>) -> bool
    decreases steps.len(),
{
    &&& r.interlocked()
    &&& (steps.len() > 0 ==> stays_interlocked(after_step(r, steps[0]), steps.drop_first()))
}

/// One button press: the line `Low` for a pulse, then `High` and released.
pub open spec fn pulse(relay: Relay) -> Seq<Step> {
    seq![
        Step::Drive(relay, Level::Low),
        Step::Wait(PULSE_MS),
        Step::Drive(relay, Level::High),
        Step::Release(relay),
    ]
}

/// Builds the steps of one button press on the relay.
pub fn pulse_steps(relay: Relay) -> (r: Vec<Step>)
    ensures
        r@ == pulse(relay),
{
    let mut steps: Vec<Step> = Vec::new();
    steps.push(Step::Drive(relay, Level::Low));
    steps.push(Step::Wait(PULSE_MS));
    steps.push(Step::Drive(relay, Level::High));
    steps.push(Step::Release(relay));
    steps
}

/// Performing `a` then `b` ends where performing `b` from the end of `a` ends.
pub proof fn lemma_run_concat(r: Relays, a: Seq<Step>, b: Seq<Step>)
    ensures
        run(r, a + b) == run(run(r, a), b),
    decreases a.len(),
{
    if a.len() > 0 {
        assert((a + b).drop_first() =~= a.drop_first() + b);
        lemma_run_concat(after_step(r, a[0]), a.drop_first(), b);
    } else {
        assert(a + b =~= b);
    }
}

/// The interlock holds through `a + b` when it holds through `a`, and through
/// `b` from where `a` ends.
pub proof fn lemma_interlocked_concat(r: Relays, a: Seq<Step>, b: Seq<Step>)
    requires
        stays_interlocked(r, a),
        stays_interlocked(run(r, a), b),
    ensures
        stays_interlocked(r, a + b),
    decreases a.len(),
{
    if a.len() > 0 {
        assert((a + b).drop_first() =~= a.drop_first() + b);
        lemma_interlocked_concat(after_step(r, a[0]), a.drop_first(), b);
    } else {
        assert(a + b =~= b);
    }
}

/// A button press from idle keeps the interlock and returns to idle.
pub proof fn lemma_pulse_from_idle(r: Relays, relay: Relay)
    requires
        r.is_idle(),
    ensures
        stays_interlocked(r, pulse(relay)),
        run(r, pulse(relay)).is_idle(),
{
    let s = pulse(relay);
    let r1 = after_step(r, s[0]);
    let r2 = after_step(r1, s[1]);
    let r3 = after_step(r2, s[2]);
    let r4 = after_step(r3, s[3]);
    let s1 = s.drop_first();
    let s2 = s1.drop_first();
    let s3 = s2.drop_first();
    let s4 = s3.drop_first();
    assert(s1 =~= seq![s[1], s[2], s[3]]);
    assert(s2 =~= seq![s[2], s[3]]);
    assert(s3 =~= seq![s[3]]);
    assert(s4.len() == 0);
    assert(stays_interlocked(r4, s4));
    assert(stays_interlocked(r3, s3));
    assert(stays_interlocked(r2, s2));
    assert(stays_interlocked(r1, s1));
    assert(run(r4, s4) == r4);
    assert(run(r3, s3) == r4);
    assert(run(r2, s2) == r4);
    assert(run(r1, s1) == r4);
}

} // verus!
