use crate::line::Level;
use vstd::prelude::*;

verus! {

/// The quiet period after which a transition is taken as final, in milliseconds.
pub const SETTLE_DELAY_MS: u64 = 50;

/// The debounce state of one monitored input: a counter of the raw
/// transitions seen so far.
///
/// Each raw transition takes a ticket carrying the counter's new value; when
/// the settle delay has passed, the ticket is confirmed only if no newer
/// transition has moved the counter on.
#[derive(Debug)]
pub struct Debouncer {
    generation: u64,
}

/// The ticket of one raw transition, waiting for its settle delay.
#[derive(Clone, Copy, Debug, PartialEq, Eq, Structural)]
pub struct Pending {
    /// The counter's value right after this transition.
    pub generation: u64,
    /// Whether the transition left the active-low contact closed.
    pub closed: bool,
}

/// What the check of a ticket for generation `expected` reports when the
/// counter stands at `counter`: the ticket's state if no transition came
/// after it, nothing otherwise.
pub open spec fn outcome(counter: int, expected: int, closed: bool) -> Option<bool> {
    if counter == expected {
        Some(closed)
    } else {
        None
    }
}

impl Debouncer {
    /// The number of raw transitions seen.
    pub closed spec fn count(&self) -> nat {
        self.generation as nat
    }

    pub fn new() -> (r: Debouncer)
        ensures
            r.count() == 0,
    {
        Debouncer { generation: 0 }
    }

    /// The number of raw transitions seen.
    pub fn generation(&self) -> (r: u64)
        ensures
            r == self.count(),
    {
        self.generation
    }

    /// Records a raw transition that left the line at `level`, and returns
    /// the ticket to check once the settle delay has passed.
    pub fn transition(&mut self, level: Level) -> (p: Pending)
        requires
            old(self).count() < u64::MAX,
        ensures
            final(self).count() == old(self).count() + 1,
            p.generation == final(self).count(),
            p.closed == (level == Level::Low),
    {
        self.generation = self.generation + 1;
        Pending { generation: self.generation, closed: level.is_low() }
    }

    /// Checks a ticket after its settle delay: the settled state if it is
    /// still the newest transition, `None` if a newer one superseded it.
    pub fn settle(&self, pending: Pending) -> (r: Option<bool>)
        ensures
            r == outcome(self.count() as int, pending.generation as int, pending.closed),
    {
        if pending.generation == self.generation {
            Some(pending.closed)
        } else {
            None
        }
    }
}

/// How many of the transitions, which arrive at the given times, have
/// arrived by time `t`: the counter's value at that time.
pub open spec fn arrived_by(times: Seq<int>, t: int) -> nat
    decreases times.len(),
{
    if times.len() == 0 {
        0
    } else {
        arrived_by(times.drop_last(), t) + if times.last() <= t {
            1nat
        } else {
            0nat
        }
    }
}

/// The report of the check of transition `i` (from 0), made `delay` after it
/// arrived: transition `i` took generation `i + 1`, and the counter then
/// counts every transition that has arrived by the check.
pub open spec fn debounced(times: Seq<int>, levels: Seq<Level>, delay: int, i: int) -> Option<
    bool,
> {
    outcome(arrived_by(times, times[i] + delay) as int, i + 1, levels[i] == Level::Low)
}

proof fn lemma_arrived_by_split(times: Seq<int>, t: int, k: int)
    requires
        0 <= k <= times.len(),
        forall|j: int| 0 <= j < k ==> times[j] <= t,
        forall|j: int| k <= j < times.len() ==> times[j] > t,
    ensures
        arrived_by(times, t) == k,
    decreases times.len(),
{
    if times.len() > 0 {
        let rest = times.drop_last();
        if k == times.len() {
            lemma_arrived_by_split(rest, t, k - 1);
        } else {
            lemma_arrived_by_split(rest, t, k);
        }
    }
}

/// A burst of transitions that all arrive within less than the settle delay
/// of the first yields exactly one report, from the last transition's check,
/// carrying the state that the last transition left.
pub proof fn lemma_burst_reports_once(times: Seq<int>, levels: Seq<Level>, delay: int)
    requires
        times.len() == levels.len(),
        times.len() > 0,
        forall|i: int, j: int| 0 <= i <= j < times.len() ==> times[i] <= times[j],
        times.last() - times[0] < delay,
    ensures
        forall|i: int| 0 <= i < times.len() - 1 ==> debounced(times, levels, delay, i) is None,
        debounced(times, levels, delay, times.len() - 1) == Some(levels.last() == Level::Low),
{
    let n = times.len() as int;
    assert forall|i: int| 0 <= i < n implies arrived_by(times, times[i] + delay) == n by {
        assert(times[0] <= times[i]);
        lemma_arrived_by_split(times, times[i] + delay, n);
    }
    assert(arrived_by(times, times[n - 1] + delay) == n);
}

/// Transitions each of which arrives more than the settle delay after the one
/// before it are each reported, with the state that each left.
pub proof fn lemma_spaced_reports_each(times: Seq<int>, levels: Seq<Level>, delay: int)
    requires
        times.len() == levels.len(),
        delay >= 0,
        forall|i: int| 0 <= i < times.len() - 1 ==> times[i + 1] - #[trigger] times[i] > delay,
    ensures
        forall|i: int|
            0 <= i < times.len() ==> debounced(times, levels, delay, i) == Some(
                levels[i] == Level::Low,
            ),
{
    let n = times.len() as int;
    assert forall|i: int, j: int| 0 <= i < j < n implies times[j] - times[i] > delay by {
        lemma_spaced_apart(times, delay, i, j);
    }
    assert forall|i: int| 0 <= i < n implies debounced(times, levels, delay, i) == Some(
        levels[i] == Level::Low,
    ) by {
        assert forall|j: int| 0 <= j < i + 1 implies times[j] <= times[i] + delay by {
            if j < i {
                assert(times[i] - times[j] > delay);
            }
        }
        assert forall|j: int| i + 1 <= j < n implies times[j] > times[i] + delay by {
            assert(times[j] - times[i] > delay);
        }
        lemma_arrived_by_split(times, times[i] + delay, i + 1);
    }
}

proof fn lemma_spaced_apart(times: Seq<int>, delay: int, i: int, j: int)
    requires
        delay >= 0,
        forall|k: int| 0 <= k < times.len() - 1 ==> times[k + 1] - #[trigger] times[k] > delay,
        0 <= i < j < times.len(),
    ensures
        times[j] - times[i] > delay,
    decreases j - i,
{
    if j > i + 1 {
        lemma_spaced_apart(times, delay, i, j - 1);
        assert(times[j] - times[j - 1] > delay);
    }
}

} // verus!
