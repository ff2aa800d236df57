//! Continuous symmetry transformations and the coordinates that their
//! infinitesimal variation δq touches.

use vstd::prelude::*;

verus! {

/// Translation symmetry along coordinate axis `axis` of a `dim`-dimensional
/// state space: δq = ê_axis.
pub struct TranslationSymmetry {
    /// Axis index.
    pub axis: usize,
    /// Dimension of the state space.
    pub dim: usize,
}

impl TranslationSymmetry {
    pub fn new(axis: usize, dim: usize) -> (s: Self)
        ensures
            s.axis == axis,
            s.dim == dim,
    {
        TranslationSymmetry { axis, dim }
    }

    /// Name of the symmetry.
    pub fn name(&self) -> (n: &'static str)
        ensures
            n@ == "translation"@,
    {
        "translation"
    }

    /// The coordinate of a state with `n` coordinates that δq sets to one;
    /// every other coordinate of δq is zero. `None` when the axis lies
    /// outside the state, in which case δq is the zero vector.
    pub fn unit_coordinate(&self, n: usize) -> (c: Option<usize>)
        ensures
            c == (if self.axis < n { Some(self.axis) } else { None::<usize> }),
    {
        if self.axis < n {
            Some(self.axis)
        } else {
            None
        }
    }
}

/// Rotation symmetry in the (`axis_i`, `axis_j`) plane:
/// δq_i = −q_j, δq_j = q_i.
pub struct RotationSymmetry {
    pub axis_i: usize,
    pub axis_j: usize,
}

impl RotationSymmetry {
    pub fn new(i: usize, j: usize) -> (s: Self)
        ensures
            s.axis_i == i,
            s.axis_j == j,
    {
        RotationSymmetry { axis_i: i, axis_j: j }
    }

    /// Name of the symmetry.
    pub fn name(&self) -> (n: &'static str)
        ensures
            n@ == "rotation"@,
    {
        "rotation"
    }

    /// The plane that δq rotates in a state with `n` coordinates, or `None`
    /// when one of the two axes lies outside the state, in which case δq is
    /// the zero vector.
    pub fn rotation_plane(&self, n: usize) -> (plane: Option<(usize, usize)>)
        ensures
            plane == (if self.axis_i < n && self.axis_j < n {
                Some((self.axis_i, self.axis_j))
            } else {
                None::<(usize, usize)>
            }),
    {
        if self.axis_i < n && self.axis_j < n {
            Some((self.axis_i, self.axis_j))
        } else {
            None
        }
    }
}

/// Time translation symmetry: δq = q̇, whose charge is Σ pᵢ q̇ᵢ.
pub struct TimeTranslationSymmetry;

impl TimeTranslationSymmetry {
    /// Name of the symmetry.
    pub fn name(&self) -> (n: &'static str)
        ensures
            n@ == "time_translation"@,
    {
        "time_translation"
    }
}

} // verus!
