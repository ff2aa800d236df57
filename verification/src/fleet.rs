//! Agent fleet symmetries: swapping identical agents, and the fleet-level
//! charges that permutation symmetry yields.

use vstd::prelude::*;

verus! {

/// Permutation symmetry: swapping agents `agent_i` and `agent_j` of a fleet.
pub struct PermutationSymmetry {
    pub agent_i: usize,
    pub agent_j: usize,
}

impl PermutationSymmetry {
    pub fn new(i: usize, j: usize) -> (s: Self)
        ensures
            s.agent_i == i,
            s.agent_j == j,
    {
        PermutationSymmetry { agent_i: i, agent_j: j }
    }
}

/// A fleet-level conserved charge: the total momentum along one axis, or
/// the total angular momentum in the plane of the first two axes.
#[derive(Clone, Copy, Debug, PartialEq, Eq, Structural)]
pub enum FleetInvariantKind {
    TotalMomentum { axis: usize },
    TotalAngularMomentum,
}

/// The total momentum along axes 0, 1, …, dim − 1, then the total angular
/// momentum when there are at least two axes.
pub open spec fn fleet_invariant_sequence(dim: nat) -> Seq<FleetInvariantKind> {
    Seq::new(dim, |a: int| FleetInvariantKind::TotalMomentum { axis: a as usize }) + (if dim >= 2 {
        seq![FleetInvariantKind::TotalAngularMomentum]
    } else {
        Seq::empty()
    })
}

/// The fleet invariants of agents with `dim` coordinates, in the order in
/// which they are reported.
pub fn fleet_invariant_kinds(dim: usize) -> (kinds: Vec<FleetInvariantKind>)
    ensures
        kinds@ == fleet_invariant_sequence(dim as nat),
{
    let mut kinds: Vec<FleetInvariantKind> = Vec::new();
    let mut axis: usize = 0;
    while axis < dim
        invariant
            axis <= dim,
            kinds@ == Seq::new(
                axis as nat,
                |a: int| FleetInvariantKind::TotalMomentum { axis: a as usize },
            ),
        decreases dim - axis,
    {
        kinds.push(FleetInvariantKind::TotalMomentum { axis });
        axis += 1;
        proof {
            assert(kinds@ =~= Seq::new(
                axis as nat,
                |a: int| FleetInvariantKind::TotalMomentum { axis: a as usize },
            ));
        }
    }
    if dim >= 2 {
        kinds.push(FleetInvariantKind::TotalAngularMomentum);
    }
    proof {
        assert(kinds@ =~= fleet_invariant_sequence(dim as nat));
    }
    kinds
}

/// Permutation symmetry yields one momentum charge per axis and, from two
/// axes on, one angular momentum charge: dim + 1 invariants when dim >= 2,
/// dim otherwise, all distinct. The a-th invariant, for a < dim, is the total
/// momentum along axis a; the one after them is the total angular momentum,
/// present exactly when dim >= 2; every momentum listed is along an axis
/// below `dim`, and every such axis is listed.
pub proof fn lemma_fleet_invariant_count(dim: nat)
    requires
        dim <= usize::MAX,
    ensures
        fleet_invariant_sequence(dim).len() == (if dim >= 2 { dim + 1 } else { dim }),
        fleet_invariant_sequence(dim).no_duplicates(),
        forall|a: int|
            0 <= a < dim ==> #[trigger] fleet_invariant_sequence(dim)[a]
                == (FleetInvariantKind::TotalMomentum { axis: a as usize }),
        dim >= 2 ==> fleet_invariant_sequence(dim)[dim as int]
            == FleetInvariantKind::TotalAngularMomentum,
        dim >= 2 <==> fleet_invariant_sequence(dim).contains(
            FleetInvariantKind::TotalAngularMomentum,
        ),
        forall|axis: usize|
            #[trigger] fleet_invariant_sequence(dim).contains(
                (FleetInvariantKind::TotalMomentum { axis }),
            ) <==> axis < dim,
{
    let s = fleet_invariant_sequence(dim);
    assert forall|axis: usize| #[trigger] s.contains((FleetInvariantKind::TotalMomentum { axis }))
        <==> axis < dim by {
        if axis < dim {
            assert(s[axis as int] == FleetInvariantKind::TotalMomentum { axis });
        }
        if s.contains(FleetInvariantKind::TotalMomentum { axis }) {
            let k: int = choose|k: int|
                0 <= k < s.len() && s[k] == (FleetInvariantKind::TotalMomentum { axis });
            if k < dim {
                assert(s[k] == FleetInvariantKind::TotalMomentum { axis: k as usize });
            }
        }
    }
    if dim >= 2 {
        assert(s[dim as int] == FleetInvariantKind::TotalAngularMomentum);
    } else {
        assert forall|k: int| 0 <= k < s.len() implies s[k]
            != FleetInvariantKind::TotalAngularMomentum by {
            assert(s[k] == FleetInvariantKind::TotalMomentum { axis: k as usize });
        }
    }
    assert forall|a: int, b: int| 0 <= a < s.len() && 0 <= b < s.len() && a != b implies s[a]
        != s[b] by {
        if a < dim && b < dim {
            assert(s[a] == FleetInvariantKind::TotalMomentum { axis: a as usize });
            assert(s[b] == FleetInvariantKind::TotalMomentum { axis: b as usize });
        } else if a < dim {
            assert(s[a] == FleetInvariantKind::TotalMomentum { axis: a as usize });
        } else if b < dim {
            assert(s[b] == FleetInvariantKind::TotalMomentum { axis: b as usize });
        }
    }
}

} // verus!
