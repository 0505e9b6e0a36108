use nbody_core::scenario::Scenario;

#[test]
fn incr_walks_the_whole_ring() {
    let s = Scenario::SimpleElliptical;
    let s = s.incr();
    assert_eq!(s, Scenario::Circle);
    let s = s.incr();
    assert_eq!(s, Scenario::Multi);
    let s = s.incr();
    assert_eq!(s, Scenario::Dual);
    let s = s.incr();
    assert_eq!(s, Scenario::SimpleElliptical);
}

#[test]
fn decr_walks_the_ring_backwards() {
    let s = Scenario::SimpleElliptical;
    let s = s.decr();
    assert_eq!(s, Scenario::Dual);
    let s = s.decr();
    assert_eq!(s, Scenario::Multi);
    let s = s.decr();
    assert_eq!(s, Scenario::Circle);
    let s = s.decr();
    assert_eq!(s, Scenario::SimpleElliptical);
}

#[test]
fn incr_and_decr_are_inverse() {
    for s in [
        Scenario::SimpleElliptical,
        Scenario::Circle,
        Scenario::Multi,
        Scenario::Dual,
    ] {
        assert_eq!(s.incr().decr(), s);
        assert_eq!(s.decr().incr(), s);
    }
}
