//! The scheduler counters: seeding, the submit-before-complete ordering,
//! and the quiescence condition.

use zipscan::scheduler::Counters;

#[test]
fn seeded_counters_are_not_quiescent() {
    let c = Counters::new();
    assert!(!c.quiescent());
    assert_eq!(c.totals(), (1, 0));
    assert_eq!(c.in_flight(), 1);
}

#[test]
fn retiring_the_seed_reaches_quiescence() {
    let mut c = Counters::new();
    c.complete();
    assert!(c.quiescent());
    assert_eq!(c.totals(), (1, 1));
    assert_eq!(c.in_flight(), 0);
}

#[test]
fn children_registered_before_parent_retires_keep_pending_positive() {
    let mut c = Counters::new();
    c.submit();
    c.submit();
    assert!(!c.quiescent());
    c.complete();
    assert!(!c.quiescent());
    assert_eq!(c.in_flight(), 2);
    c.complete();
    assert!(!c.quiescent());
    c.complete();
    assert!(c.quiescent());
    assert_eq!(c.totals(), (3, 3));
}

#[test]
fn a_growing_graph_drains_to_quiescence() {
    let mut c = Counters::new();
    let mut pending: u64 = 1;
    let fan_out = [3u64, 2, 0, 1, 0, 0, 0];
    for children in fan_out {
        assert!(pending > 0);
        for _ in 0..children {
            c.submit();
            pending += 1;
        }
        c.complete();
        pending -= 1;
        assert_eq!(c.in_flight(), pending);
        assert_eq!(c.quiescent(), pending == 0);
    }
    assert!(c.quiescent());
}
