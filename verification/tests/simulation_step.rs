use nbody_core::sim::step_all;

#[test]
fn forces_are_read_from_the_pre_tick_snapshot() {
    let mut particles: Vec<u64> = vec![1, 10, 100];
    let force = |p: u64, o: u64| p + 2 * o;
    let tick = |p: u64| p + 1;
    step_all(&mut particles, force, tick);
    // Each result folds over the snapshot [1, 10, 100], never over states
    // already advanced in this tick, and skips its own index.
    assert_eq!(particles, vec![222, 213, 123]);
}

#[test]
fn identical_twins_still_interact() {
    let mut particles: Vec<u64> = vec![5, 5];
    let force = |p: u64, o: u64| p + o;
    let tick = |p: u64| p;
    step_all(&mut particles, force, tick);
    // Exclusion is by index, not by state equality: each twin feels the
    // other, so neither stays at 5.
    assert_eq!(particles, vec![10, 10]);
}

#[test]
fn lone_particle_feels_no_force() {
    let mut particles: Vec<u64> = vec![42];
    let force = |p: u64, _o: u64| p + 1_000_000;
    let tick = |p: u64| p + 1;
    step_all(&mut particles, force, tick);
    assert_eq!(particles, vec![43]);
}

#[test]
fn empty_set_ticks_to_empty() {
    let mut particles: Vec<u64> = Vec::new();
    step_all(&mut particles, |p: u64, _o: u64| p, |p: u64| p);
    assert!(particles.is_empty());
}

#[test]
fn two_runs_from_equal_states_agree() {
    let force = |p: u64, o: u64| p.wrapping_mul(3).wrapping_add(o);
    let tick = |p: u64| p.wrapping_add(7);
    let run = || {
        let mut particles: Vec<u64> = vec![3, 1, 4, 1, 5];
        for _ in 0..10 {
            step_all(&mut particles, force, tick);
        }
        particles
    };
    assert_eq!(run(), run());
}
