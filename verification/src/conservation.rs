//! Trajectories of a time-stepping scheme.

use vstd::prelude::*;

verus! {

/// Runs `n_steps` steps of a one-step integrator from `initial` and returns
/// every state visited, the initial one first.
pub fn iterate_steps<S, F: Fn(&S) -> S>(initial: S, n_steps: usize, step: &F) -> (trajectory: Vec<S>)
    requires
        n_steps < usize::MAX,
        forall|s: &S| #[trigger] step.requires((s,)),
    ensures
        trajectory.len() == n_steps + 1,
        trajectory[0] == initial,
        forall|k: int|
            0 <= k < n_steps ==> #[trigger] step.ensures((&trajectory[k],), trajectory[k + 1]),
{
    let mut trajectory: Vec<S> = Vec::new();
    trajectory.push(initial);
    let mut k: usize = 0;
    while k < n_steps
        invariant
            k <= n_steps,
            trajectory.len() == k + 1,
            trajectory[0] == initial,
            forall|s: &S| #[trigger] step.requires((s,)),
            forall|i: int| 0 <= i < k ==> #[trigger] step.ensures((&trajectory[i],), trajectory[i + 1]),
        decreases n_steps - k,
    {
        let next = step(&trajectory[k]);
        trajectory.push(next);
        k += 1;
    }
    trajectory
}

} // verus!
