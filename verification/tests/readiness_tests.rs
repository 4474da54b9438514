use actix_zmq::readiness::EventState;
use actix_zmq::readiness::Interest;
use actix_zmq::readiness::ReadinessStep;
use actix_zmq::readiness::poll_readiness;

#[test]
fn satisfied_interest_proceeds() {
    let ev = EventState { readable: true, writable: false };
    let step = poll_readiness(ev, Interest::Read, false);
    assert_eq!(step, ReadinessStep::Proceed);
}

#[test]
fn spurious_edge_rearms_exactly_one_wake() {
    // a ready edge with no data available: one Pending, one extra wake
    let ev = EventState { readable: false, writable: false };
    let step = poll_readiness(ev, Interest::Read, true);
    assert_eq!(step, ReadinessStep::PendingRearmed);
    // consuming the edge leaves the guard cleared; a second poll parks
    let step2 = poll_readiness(ev, Interest::Read, false);
    assert_eq!(step2, ReadinessStep::PendingParked);
}

#[test]
fn no_edge_parks_without_a_wake() {
    let ev = EventState { readable: true, writable: false };
    let step = poll_readiness(ev, Interest::Write, false);
    assert_eq!(step, ReadinessStep::PendingParked);
}

#[test]
fn write_interest_reads_the_writable_bit() {
    let ev = EventState { readable: false, writable: true };
    assert_eq!(poll_readiness(ev, Interest::Write, false), ReadinessStep::Proceed);
    assert_eq!(
        poll_readiness(ev, Interest::Read, true),
        ReadinessStep::PendingRearmed
    );
}
