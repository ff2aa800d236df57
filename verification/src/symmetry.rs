//! The symmetries that are probed for invariance of a Lagrangian, and the
//! scaling symmetry.

use vstd::prelude::*;
use crate::pairs::{ordered_pairs, pair_sequence, lemma_pair_sequence_exact};

verus! {

/// A candidate symmetry whose invariance is probed: a translation along
/// one axis, or a rotation in the (`axis_i`, `axis_j`) plane.
#[derive(Clone, Copy, Debug, PartialEq, Eq, Structural)]
pub enum SymmetryCandidate {
    Translation { axis: usize },
    Rotation { axis_i: usize, axis_j: usize },
}

/// Translations along axes 0, 1, …, dim − 1.
pub open spec fn translation_candidates(dim: nat) -> Seq<SymmetryCandidate> {
    Seq::new(dim, |a: int| SymmetryCandidate::Translation { axis: a as usize })
}

/// The rotation in the plane of an index pair.
pub open spec fn rotation_candidate(p: (usize, usize)) -> SymmetryCandidate {
    SymmetryCandidate::Rotation { axis_i: p.0, axis_j: p.1 }
}

/// Every translation by axis, then every rotation plane (i, j) with
/// i < j < dim in lexicographic order.
pub open spec fn candidate_sequence(dim: nat) -> Seq<SymmetryCandidate> {
    translation_candidates(dim) + pair_sequence(dim).map_values(|p: (usize, usize)| rotation_candidate(p))
}

/// The candidate symmetries of a `dim`-dimensional system, in the order in
/// which they are probed.
pub fn symmetry_candidates(dim: usize) -> (candidates: Vec<SymmetryCandidate>)
    ensures
        candidates@ == candidate_sequence(dim as nat),
{
    let mut candidates: Vec<SymmetryCandidate> = Vec::new();
    let mut axis: usize = 0;
    while axis < dim
        invariant
            axis <= dim,
            candidates@ == translation_candidates(axis as nat),
        decreases dim - axis,
    {
        proof {
            assert(translation_candidates((axis + 1) as nat) =~= translation_candidates(
                axis as nat,
            ).push(SymmetryCandidate::Translation { axis }));
        }
        candidates.push(SymmetryCandidate::Translation { axis });
        axis += 1;
    }
    let pairs = ordered_pairs(dim);
    let ghost rotations = pairs@.map_values(|p: (usize, usize)| rotation_candidate(p));
    let mut k: usize = 0;
    while k < pairs.len()
        invariant
            k <= pairs.len(),
            rotations == pairs@.map_values(|p: (usize, usize)| rotation_candidate(p)),
            candidates@ == translation_candidates(dim as nat) + rotations.take(k as int),
        decreases pairs.len() - k,
    {
        let (i, j) = pairs[k];
        proof {
            assert(rotations.take(k + 1) =~= rotations.take(k as int).push(
                SymmetryCandidate::Rotation { axis_i: i, axis_j: j },
            ));
        }
        candidates.push(SymmetryCandidate::Rotation { axis_i: i, axis_j: j });
        k += 1;
    }
    proof {
        assert(rotations.take(pairs.len() as int) =~= rotations);
    }
    candidates
}

/// The probe covers each translation axis and each rotation plane exactly
/// once: dim + dim(dim − 1)/2 candidates, all distinct, every translation
/// along an axis below `dim`, every rotation in a plane (i, j) with
/// i < j < dim. Positions are fixed too: the k-th candidate, for k < dim,
/// is the translation along axis k, and the candidate at dim + k is the
/// rotation in the k-th plane of the lexicographic pair enumeration.
pub proof fn lemma_candidates_exact(dim: nat)
    requires
        dim <= usize::MAX,
    ensures
        forall|k: int|
            0 <= k < dim ==> #[trigger] candidate_sequence(dim)[k]
                == (SymmetryCandidate::Translation { axis: k as usize }),
        forall|k: int|
            0 <= k < pair_sequence(dim).len() ==> (candidate_sequence(dim)[dim + k] matches SymmetryCandidate::Rotation { axis_i, axis_j } && axis_i == (#[trigger] pair_sequence(dim)[k]).0 && axis_j == pair_sequence(dim)[k].1),
        candidate_sequence(dim).len() == dim + dim * (dim - 1) / 2,
        candidate_sequence(dim).no_duplicates(),
        forall|axis: usize|
            axis < dim ==> #[trigger] candidate_sequence(dim).contains(
                SymmetryCandidate::Translation { axis },
            ),
        forall|i: usize, j: usize|
            i < j < dim ==> #[trigger] candidate_sequence(dim).contains(
                SymmetryCandidate::Rotation { axis_i: i, axis_j: j },
            ),
        forall|k: int|
            0 <= k < candidate_sequence(dim).len() ==> match #[trigger] candidate_sequence(dim)[k] {
                SymmetryCandidate::Translation { axis } => axis < dim,
                SymmetryCandidate::Rotation { axis_i, axis_j } => axis_i < axis_j < dim,
            },
{
    lemma_pair_sequence_exact(dim);
    let t = translation_candidates(dim);
    let ps = pair_sequence(dim);
    let r = ps.map_values(|p: (usize, usize)| rotation_candidate(p));
    let c = candidate_sequence(dim);
    assert(c == t + r);
    assert forall|k: int| 0 <= k < ps.len() implies c[dim + k] == rotation_candidate(
        #[trigger] ps[k],
    ) by {
        assert(c[t.len() + k] == r[k]);
    }
    assert forall|k: int| 0 <= k < c.len() implies match #[trigger] c[k] {
        SymmetryCandidate::Translation { axis } => axis < dim,
        SymmetryCandidate::Rotation { axis_i, axis_j } => axis_i < axis_j < dim,
    } by {
        if k >= t.len() {
            assert(c[k] == r[k - t.len()]);
            assert(ps[k - t.len()].0 < ps[k - t.len()].1 < dim);
        }
    }
    assert forall|axis: usize| axis < dim implies #[trigger] c.contains(
        SymmetryCandidate::Translation { axis },
    ) by {
        assert(c[axis as int] == t[axis as int]);
    }
    assert forall|i: usize, j: usize| i < j < dim implies #[trigger] c.contains(
        SymmetryCandidate::Rotation { axis_i: i, axis_j: j },
    ) by {
        assert(ps.contains((i, j)));
        let k: int = choose|k: int| 0 <= k < ps.len() && ps[k] == (i, j);
        assert(c[t.len() + k] == r[k]);
    }
    assert forall|a: int, b: int| 0 <= a < c.len() && 0 <= b < c.len() && a != b implies c[a]
        != c[b] by {
        if a < t.len() && b < t.len() {
            assert(c[a] == t[a]);
            assert(c[b] == t[b]);
        } else if a >= t.len() && b >= t.len() {
            assert(c[a] == r[a - t.len()]);
            assert(c[b] == r[b - t.len()]);
            assert(ps[a - t.len()] != ps[b - t.len()]);
        } else if a < t.len() {
            assert(c[b] == r[b - t.len()]);
        } else {
            assert(c[a] == r[a - t.len()]);
        }
    }
}

/// Scaling symmetry: δq = q, whose charge is the dilatation Σ pᵢ qᵢ.
pub struct ScalingSymmetry;

impl ScalingSymmetry {
    /// Name of the symmetry.
    pub fn name(&self) -> (n: &'static str)
        ensures
            n@ == "scaling"@,
    {
        "scaling"
    }
}

} // verus!
