//! CUDAclaw cell agents: which discrete Noether charges a conservation proof
//! tracks, and the verdict of a fleet invariant check.

use vstd::prelude::*;
use crate::pairs::{pair_precedes, pair_sequence, lemma_pair_sequence_exact};

verus! {

/// The number of leading agents whose discrete Noether charges a
/// conservation proof tracks.
pub const TRACKED_AGENTS: usize = 3;

/// The (agent, axis) pairs for agents a, a + 1, …, m − 1 and every axis
/// below `dim`, agent by agent, axis by axis.
pub open spec fn charge_slots_from(a: nat, m: nat, dim: nat) -> Seq<(usize, usize)>
    decreases m - a,
{
    if a < m {
        Seq::new(dim, |x: int| (a as usize, x as usize)) + charge_slots_from(a + 1, m, dim)
    } else {
        Seq::empty()
    }
}

/// The (agent, axis) pairs whose translation charge a conservation proof
/// computes: the first `TRACKED_AGENTS` agents (or all, if fewer), each
/// along every axis.
pub open spec fn charge_slot_sequence(n_agents: nat, dim: nat) -> Seq<(usize, usize)> {
    charge_slots_from(0, if n_agents < TRACKED_AGENTS { n_agents } else { TRACKED_AGENTS as nat }, dim)
}

/// The (agent, axis) pairs, in order, whose discrete momentum charge a
/// conservation proof over `n_agents` agents with `dim` coordinates tracks.
pub fn discrete_charge_slots(n_agents: usize, dim: usize) -> (slots: Vec<(usize, usize)>)
    ensures
        slots@ == charge_slot_sequence(n_agents as nat, dim as nat),
{
    let m: usize = if n_agents < TRACKED_AGENTS {
        n_agents
    } else {
        TRACKED_AGENTS
    };
    let mut slots: Vec<(usize, usize)> = Vec::new();
    let mut agent: usize = 0;
    while agent < m
        invariant
            agent <= m,
            m == (if n_agents < TRACKED_AGENTS { n_agents } else { TRACKED_AGENTS }),
            slots@ + charge_slots_from(agent as nat, m as nat, dim as nat)
                == charge_slot_sequence(n_agents as nat, dim as nat),
        decreases m - agent,
    {
        let ghost before = slots@;
        let ghost row = Seq::new(dim as nat, |x: int| (agent as usize, x as usize));
        let mut axis: usize = 0;
        while axis < dim
            invariant
                agent < m,
                axis <= dim,
                row == Seq::new(dim as nat, |x: int| (agent as usize, x as usize)),
                slots@ == before + row.take(axis as int),
                before + charge_slots_from(agent as nat, m as nat, dim as nat)
                    == charge_slot_sequence(n_agents as nat, dim as nat),
            decreases dim - axis,
        {
            proof {
                assert(row.take(axis + 1) =~= row.take(axis as int).push((agent, axis)));
            }
            slots.push((agent, axis));
            axis += 1;
        }
        proof {
            assert(row.take(dim as int) =~= row);
            assert(before + charge_slots_from(agent as nat, m as nat, dim as nat) =~= slots@
                + charge_slots_from((agent + 1) as nat, m as nat, dim as nat));
        }
        agent += 1;
    }
    proof {
        assert(slots@ + charge_slots_from(m as nat, m as nat, dim as nat) =~= slots@);
    }
    slots
}

proof fn lemma_charge_slots_from(a: nat, m: nat, dim: nat)
    requires
        m <= usize::MAX,
        dim <= usize::MAX,
    ensures
        a <= m ==> charge_slots_from(a, m, dim).len() == (m - a) * dim,
        forall|k: int|
            0 <= k < charge_slots_from(a, m, dim).len() ==> a <= (#[trigger] charge_slots_from(
                a,
                m,
                dim,
            )[k]).0 < m && charge_slots_from(a, m, dim)[k].1 < dim,
        forall|i: int, j: int|
            0 <= i < j < charge_slots_from(a, m, dim).len() ==> pair_precedes(
                #[trigger] charge_slots_from(a, m, dim)[i],
                #[trigger] charge_slots_from(a, m, dim)[j],
            ),
        forall|p: usize, q: usize|
            a <= p < m && q < dim ==> #[trigger] charge_slots_from(a, m, dim).contains((p, q)),
    decreases m - a,
{
    if a < m {
        lemma_charge_slots_from(a + 1, m, dim);
        let row = Seq::new(dim, |x: int| (a as usize, x as usize));
        let rest = charge_slots_from(a + 1, m, dim);
        let s = charge_slots_from(a, m, dim);
        assert(s == row + rest);
        assert(s.len() == (m - a) * dim) by (nonlinear_arith)
            requires
                s.len() == row.len() + rest.len(),
                row.len() == dim,
                rest.len() == (m - (a + 1)) * dim,
        ;
        assert forall|k: int| 0 <= k < s.len() implies a <= (#[trigger] s[k]).0 < m && s[k].1
            < dim by {
            if k < row.len() {
                assert(s[k] == row[k]);
            } else {
                assert(s[k] == rest[k - row.len()]);
            }
        }
        assert forall|i: int, j: int| 0 <= i < j < s.len() implies pair_precedes(
            #[trigger] s[i],
            #[trigger] s[j],
        ) by {
            if j < row.len() {
                assert(s[i] == row[i]);
                assert(s[j] == row[j]);
            } else if i < row.len() {
                assert(s[i] == row[i]);
                assert(s[j] == rest[j - row.len()]);
            } else {
                assert(s[i] == rest[i - row.len()]);
                assert(s[j] == rest[j - row.len()]);
            }
        }
        assert forall|p: usize, q: usize| a <= p < m && q < dim implies #[trigger] s.contains(
            (p, q),
        ) by {
            if p == a {
                assert(s[q as int] == row[q as int]);
            } else {
                assert(rest.contains((p, q)));
                let k: int = choose|k: int| 0 <= k < rest.len() && rest[k] == (p, q);
                assert(s[row.len() + k] == rest[k]);
            }
        }
    } else if a == m {
        assert((m - a) * dim == 0) by (nonlinear_arith)
            requires
                a == m,
        ;
    }
}

/// A conservation proof tracks the charge of each of the first
/// min(n_agents, `TRACKED_AGENTS`) agents along each of the `dim` axes,
/// each (agent, axis) pair exactly once, agent by agent and axis by axis.
pub proof fn lemma_charge_slots_exact(n_agents: nat, dim: nat)
    requires
        n_agents <= usize::MAX,
        dim <= usize::MAX,
    ensures
        ({
            let m: nat = if n_agents < TRACKED_AGENTS { n_agents } else { TRACKED_AGENTS as nat };
            let s = charge_slot_sequence(n_agents, dim);
            &&& s.len() == m * dim
            &&& s.no_duplicates()
            &&& forall|k: int| 0 <= k < s.len() ==> (#[trigger] s[k]).0 < m && s[k].1 < dim
            &&& forall|p: usize, q: usize| p < m && q < dim ==> #[trigger] s.contains((p, q))
            &&& forall|i: int, j: int|
                0 <= i < j < s.len() ==> pair_precedes(#[trigger] s[i], #[trigger] s[j])
        }),
{
    let m: nat = if n_agents < TRACKED_AGENTS { n_agents } else { TRACKED_AGENTS as nat };
    lemma_charge_slots_from(0, m, dim);
    let s = charge_slot_sequence(n_agents, dim);
    assert forall|i: int, j: int| 0 <= i < s.len() && 0 <= j < s.len() && i != j implies s[i]
        != s[j] by {
        if i < j {
            assert(pair_precedes(s[i], s[j]));
        } else {
            assert(pair_precedes(s[j], s[i]));
        }
    }
}

/// The sum of a sequence of integer force components.
pub open spec fn force_total(forces: Seq<int>) -> int
    decreases forces.len(),
{
    if forces.len() == 0 {
        0
    } else {
        force_total(forces.drop_last()) + forces.last()
    }
}

/// Accumulates pairwise forces, pair by pair in order: pair (i, j) adds
/// g(i, j) to agent i and subtracts it from agent j.
pub open spec fn apply_pair_forces(
    forces: Seq<int>,
    pairs: Seq<(usize, usize)>,
    g: spec_fn(usize, usize) -> int,
) -> Seq<int>
    decreases pairs.len(),
{
    if pairs.len() == 0 {
        forces
    } else {
        let (i, j) = pairs[0];
        let pushed = forces.update(i as int, forces[i as int] + g(i, j));
        let pulled = pushed.update(j as int, pushed[j as int] - g(i, j));
        apply_pair_forces(pulled, pairs.drop_first(), g)
    }
}

/// The net force on each of `n` agents when every pair (i, j), i < j < n,
/// interacts with the force g(i, j) on i and −g(i, j) on j.
pub open spec fn pairwise_net_forces(n: nat, g: spec_fn(usize, usize) -> int) -> Seq<int> {
    apply_pair_forces(Seq::new(n, |a: int| 0int), pair_sequence(n), g)
}

proof fn lemma_force_total_update(s: Seq<int>, i: int, v: int)
    requires
        0 <= i < s.len(),
    ensures
        force_total(s.update(i, v)) == force_total(s) - s[i] + v,
    decreases s.len(),
{
    let u = s.update(i, v);
    if i == s.len() - 1 {
        assert(u.drop_last() =~= s.drop_last());
    } else {
        assert(u.drop_last() =~= s.drop_last().update(i, v));
        lemma_force_total_update(s.drop_last(), i, v);
    }
}

proof fn lemma_apply_pair_forces(forces: Seq<int>, pairs: Seq<(usize, usize)>, g: spec_fn(usize, usize) -> int)
    requires
        forall|k: int| 0 <= k < pairs.len() ==> (#[trigger] pairs[k]).0 < forces.len() && pairs[k].1
            < forces.len(),
    ensures
        apply_pair_forces(forces, pairs, g).len() == forces.len(),
        force_total(apply_pair_forces(forces, pairs, g)) == force_total(forces),
    decreases pairs.len(),
{
    if pairs.len() > 0 {
        let (i, j) = pairs[0];
        let pushed = forces.update(i as int, forces[i as int] + g(i, j));
        let pulled = pushed.update(j as int, pushed[j as int] - g(i, j));
        lemma_force_total_update(forces, i as int, forces[i as int] + g(i, j));
        lemma_force_total_update(pushed, j as int, pushed[j as int] - g(i, j));
        let rest = pairs.drop_first();
        assert forall|k: int| 0 <= k < rest.len() implies (#[trigger] rest[k]).0 < pulled.len()
            && rest[k].1 < pulled.len() by {
            assert(rest[k] == pairs[k + 1]);
        }
        lemma_apply_pair_forces(pulled, rest, g);
    }
}

proof fn lemma_force_total_zeros(n: nat)
    ensures
        force_total(Seq::new(n, |a: int| 0int)) == 0,
    decreases n,
{
    if n > 0 {
        assert(Seq::new(n, |a: int| 0int).drop_last() =~= Seq::new((n - 1) as nat, |a: int| 0int));
        lemma_force_total_zeros((n - 1) as nat);
    }
}

/// Newton's third law, counted over the pairs: when each pair (i, j) of `n`
/// agents, i < j, pushes agent i by g(i, j) and agent j by −g(i, j), the net
/// forces on the agents add up to zero, whatever the pair force g, so the
/// interactions leave the total momentum unchanged.
pub proof fn lemma_pairwise_forces_cancel(n: nat, g: spec_fn(usize, usize) -> int)
    requires
        n <= usize::MAX,
    ensures
        pairwise_net_forces(n, g).len() == n,
        force_total(pairwise_net_forces(n, g)) == 0,
{
    lemma_pair_sequence_exact(n);
    let zeros = Seq::new(n, |a: int| 0int);
    lemma_apply_pair_forces(zeros, pair_sequence(n), g);
    lemma_force_total_zeros(n);
}

/// Whether the energy, the momentum and the angular momentum of a fleet
/// stayed constant over a recorded history.
pub struct FleetConservationReport {
    pub energy_conserved: bool,
    pub momentum_conserved: bool,
    pub angular_momentum_conserved: bool,
    pub all_conserved: bool,
}

impl FleetConservationReport {
    /// A report is consistent when its overall verdict holds exactly when
    /// each of the three invariants was conserved.
    pub open spec fn is_consistent(&self) -> bool {
        self.all_conserved == (self.energy_conserved && self.momentum_conserved
            && self.angular_momentum_conserved)
    }

    /// The report on the three conservation checks.
    pub fn from_checks(
        energy_conserved: bool,
        momentum_conserved: bool,
        angular_momentum_conserved: bool,
    ) -> (r: Self)
        ensures
            r.energy_conserved == energy_conserved,
            r.momentum_conserved == momentum_conserved,
            r.angular_momentum_conserved == angular_momentum_conserved,
            r.all_conserved == (energy_conserved && momentum_conserved
                && angular_momentum_conserved),
            r.is_consistent(),
    {
        FleetConservationReport {
            energy_conserved,
            momentum_conserved,
            angular_momentum_conserved,
            all_conserved: energy_conserved && momentum_conserved && angular_momentum_conserved,
        }
    }
}

} // verus!
