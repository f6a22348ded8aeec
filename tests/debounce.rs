use door_server::{Debouncer, Level, Pending, SETTLE_DELAY_MS};

/// Feeds transitions (time in ms, level) to a filter, checks each ticket
/// `SETTLE_DELAY_MS` after its transition, and returns the reports with
/// the time at which each was made.
fn replay(transitions: &[(u64, Level)]) -> Vec<(u64, bool)> {
    let mut filter = Debouncer::new();
    let mut checks: Vec<(u64, Pending)> = Vec::new();
    let mut reports = Vec::new();
    for &(time, level) in transitions {
        checks.sort_by_key(|c| c.0);
        while let Some(&(due, pending)) = checks.first() {
            if due >= time {
                break;
            }
            checks.remove(0);
            if let Some(closed) = filter.settle(pending) {
                reports.push((due, closed));
            }
        }
        let pending = filter.transition(level);
        checks.push((time + SETTLE_DELAY_MS, pending));
    }
    checks.sort_by_key(|c| c.0);
    for (due, pending) in checks {
        if let Some(closed) = filter.settle(pending) {
            reports.push((due, closed));
        }
    }
    reports
}

#[test]
fn bounce_low_high_low_reports_closed_once() {
    assert_eq!(SETTLE_DELAY_MS, 50);
    let reports = replay(&[(0, Level::Low), (2, Level::High), (5, Level::Low)]);
    assert_eq!(reports, vec![(55, true)]);
}

#[test]
fn superseded_tickets_are_discarded() {
    let mut filter = Debouncer::new();
    let first = filter.transition(Level::Low);
    let second = filter.transition(Level::High);
    let third = filter.transition(Level::Low);
    assert_eq!(filter.settle(first), None);
    assert_eq!(filter.settle(second), None);
    assert_eq!(filter.settle(third), Some(true));
    assert_eq!(filter.generation(), 3);
}

#[test]
fn burst_reports_last_level_only() {
    let reports = replay(&[(10, Level::High), (20, Level::Low), (30, Level::Low), (59, Level::High)]);
    assert_eq!(reports, vec![(109, false)]);
}

#[test]
fn spaced_transitions_each_report() {
    let reports = replay(&[(0, Level::Low), (51, Level::High), (200, Level::Low), (251, Level::Low)]);
    assert_eq!(reports, vec![(50, true), (101, false), (250, true), (301, true)]);
}

#[test]
fn ticket_carries_active_low_state() {
    let mut filter = Debouncer::new();
    assert_eq!(filter.generation(), 0);
    let low = filter.transition(Level::Low);
    assert_eq!(low, Pending { generation: 1, closed: true });
    let high = filter.transition(Level::High);
    assert_eq!(high, Pending { generation: 2, closed: false });
    assert_eq!(filter.settle(high), Some(false));
}
