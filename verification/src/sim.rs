//! One simulation tick over the whole particle set: snapshot-then-update
//! ordering. The force law and the integrator are passed in by the caller;
//! this module guarantees the orchestration: every particle's new state is
//! obtained by folding the force law over the pre-tick snapshot in index
//! order — never over states already advanced in the same tick — skipping
//! exactly the particle's own index, and then integrating once.

use vstd::prelude::*;

verus! {

/// The states force accumulation for the particle at index `i` passes
/// through: `chain[j]` is the state before the contribution of snapshot
/// index `j` is folded in, `chain[snap.len()]` the fully accumulated state.
/// The step at `j == i` is a stutter: a particle takes no force from
/// itself, by index, even if another particle holds identical state.
pub open spec fn accum_chain<P, G: Fn(P, P) -> P>(
    force: G,
    snap: Seq<P>,
    i: int,
    chain: Seq<P>,
) -> bool {
    &&& chain.len() == snap.len() + 1
    &&& chain[0] == snap[i]
    &&& forall|j: int|
        0 <= j < snap.len() && j != i ==> call_ensures(
            force,
            (chain[j], snap[j]),
            chain[j + 1],
        )
    &&& (0 <= i < snap.len() ==> chain[i + 1] == chain[i])
}

/// The particle at index `i` of the snapshot can step to `result` in one
/// tick: some accumulation chain over the snapshot, excluding index `i`
/// itself, ends in a state the integrator maps to `result`.
pub open spec fn steps_to<P, G: Fn(P, P) -> P, T: Fn(P) -> P>(
    force: G,
    tick: T,
    snap: Seq<P>,
    i: int,
    result: P,
) -> bool {
    exists|chain: Seq<P>|
        accum_chain(force, snap, i, chain) && call_ensures(
            tick,
            (chain[snap.len() as int],),
            result,
        )
}

/// Advance the whole particle set by one tick. `force` folds one other
/// particle's contribution into an accumulating state; `tick` integrates
/// an accumulated state (position advance and wall handling). All force
/// contributions are read from an immutable snapshot taken before any
/// particle is changed, and each particle skips exactly its own index.
#[verifier::loop_isolation(false)]
pub fn step_all<P: Copy, G: Fn(P, P) -> P, T: Fn(P) -> P>(
    particles: &mut Vec<P>,
    force: G,
    tick: T,
)
    requires
        forall|p: P, o: P| call_requires(force, (p, o)),
        forall|p: P| call_requires(tick, (p,)),
    ensures
        final(particles)@.len() == old(particles)@.len(),
        forall|i: int|
            0 <= i < old(particles)@.len() ==> steps_to(
                force,
                tick,
                old(particles)@,
                i,
                #[trigger] final(particles)@[i],
            ),
{
    let n = particles.len();
    let mut snapshot: Vec<P> = Vec::new();
    let mut k: usize = 0;
    while k < n
        invariant
            k <= n,
            snapshot@ =~= particles@.take(k as int),
        decreases n - k,
    {
        snapshot.push(particles[k]);
        k += 1;
    }
    proof {
        assert(snapshot@ =~= old(particles)@);
    }
    let mut i: usize = 0;
    while i < n
        invariant
            i <= n,
            particles@.len() == n,
            forall|t: int|
                0 <= t < i ==> steps_to(
                    force,
                    tick,
                    snapshot@,
                    t,
                    #[trigger] particles@[t],
                ),
        decreases n - i,
    {
        let mut p = snapshot[i];
        let ghost mut chain: Seq<P> = seq![p];
        let mut j: usize = 0;
        while j < n
            invariant
                j <= n,
                i < n,
                chain.len() == j + 1,
                chain[0] == snapshot@[i as int],
                p == chain[j as int],
                forall|t: int|
                    0 <= t < j && t != i ==> call_ensures(
                        force,
                        (chain[t], snapshot@[t]),
                        chain[t + 1],
                    ),
                i < j ==> chain[i as int + 1] == chain[i as int],
            decreases n - j,
        {
            if j != i {
                p = force(p, snapshot[j]);
            }
            proof {
                chain = chain.push(p);
            }
            j += 1;
        }
        let q = tick(p);
        proof {
            assert(accum_chain(force, snapshot@, i as int, chain));
            assert(call_ensures(tick, (chain[n as int],), q));
        }
        particles.set(i, q);
        i += 1;
    }
}

/// Two accumulation chains for the same snapshot and index agree at every
/// position once the force law is a function of its arguments.
proof fn lemma_chain_unique<P, G: Fn(P, P) -> P>(
    force: G,
    snap: Seq<P>,
    i: int,
    c1: Seq<P>,
    c2: Seq<P>,
    j: int,
)
    requires
        forall|a: P, b: P, x: P, y: P|
            call_ensures(force, (a, b), x) && call_ensures(force, (a, b), y) ==> x == y,
        accum_chain(force, snap, i, c1),
        accum_chain(force, snap, i, c2),
        0 <= j <= snap.len(),
    ensures
        c1[j] == c2[j],
    decreases j,
{
    if j > 0 {
        lemma_chain_unique(force, snap, i, c1, c2, j - 1);
        if j - 1 != i {
            assert(call_ensures(force, (c1[j - 1], snap[j - 1]), c1[j]));
            assert(call_ensures(force, (c2[j - 1], snap[j - 1]), c2[j]));
        }
    }
}

/// Determinism of one tick: when the force law and the integrator each have
/// at most one output per input, a particle's next state is unique — there
/// is no hidden dependence on anything but the snapshot.
pub proof fn lemma_step_deterministic<P, G: Fn(P, P) -> P, T: Fn(P) -> P>(
    force: G,
    tick: T,
    snap: Seq<P>,
    i: int,
    r1: P,
    r2: P,
)
    requires
        forall|a: P, b: P, x: P, y: P|
            call_ensures(force, (a, b), x) && call_ensures(force, (a, b), y) ==> x == y,
        forall|a: P, x: P, y: P|
            call_ensures(tick, (a,), x) && call_ensures(tick, (a,), y) ==> x == y,
        steps_to(force, tick, snap, i, r1),
        steps_to(force, tick, snap, i, r2),
    ensures
        r1 == r2,
{
    let n = snap.len() as int;
    let c1 = choose|c: Seq<P>|
        accum_chain(force, snap, i, c) && call_ensures(tick, (c[n],), r1);
    let c2 = choose|c: Seq<P>|
        accum_chain(force, snap, i, c) && call_ensures(tick, (c[n],), r2);
    lemma_chain_unique(force, snap, i, c1, c2, n);
}

/// Self-exclusion at its sharpest: a lone particle accumulates no force at
/// all, whatever the force law, so its tick is exactly one integrator step
/// of its unchanged state.
pub proof fn lemma_single_particle_unforced<P, G: Fn(P, P) -> P, T: Fn(P) -> P>(
    force: G,
    tick: T,
    snap: Seq<P>,
    result: P,
)
    requires
        snap.len() == 1,
        steps_to(force, tick, snap, 0, result),
    ensures
        call_ensures(tick, (snap[0],), result),
{
    let chain = choose|chain: Seq<P>|
        accum_chain(force, snap, 0, chain) && call_ensures(tick, (chain[1],), result);
    assert(chain[1] == chain[0]);
}

} // verus!
