use lau_noether_agents::noether::{RotationSymmetry, TimeTranslationSymmetry, TranslationSymmetry};
use lau_noether_agents::symmetry::{symmetry_candidates, ScalingSymmetry, SymmetryCandidate};

#[test]
fn translation_symmetry_fields_and_name() {
    let sym = TranslationSymmetry::new(0, 2);
    assert_eq!(sym.axis, 0);
    assert_eq!(sym.dim, 2);
    assert_eq!(sym.name(), "translation");
}

#[test]
fn translation_unit_coordinate_inside_and_outside() {
    let sym = TranslationSymmetry::new(1, 3);
    assert_eq!(sym.unit_coordinate(2), Some(1));
    assert_eq!(sym.unit_coordinate(3), Some(1));
    assert_eq!(sym.unit_coordinate(1), None);
    assert_eq!(sym.unit_coordinate(0), None);
}

#[test]
fn rotation_symmetry_fields_and_name() {
    let sym = RotationSymmetry::new(0, 1);
    assert_eq!(sym.axis_i, 0);
    assert_eq!(sym.axis_j, 1);
    assert_eq!(sym.name(), "rotation");
}

#[test]
fn rotation_plane_needs_both_axes() {
    let sym = RotationSymmetry::new(0, 2);
    assert_eq!(sym.rotation_plane(3), Some((0, 2)));
    assert_eq!(sym.rotation_plane(2), None);
    assert_eq!(RotationSymmetry::new(2, 0).rotation_plane(2), None);
    assert_eq!(RotationSymmetry::new(1, 0).rotation_plane(2), Some((1, 0)));
}

#[test]
fn unit_symmetry_names() {
    assert_eq!(TimeTranslationSymmetry.name(), "time_translation");
    assert_eq!(ScalingSymmetry.name(), "scaling");
}

#[test]
fn candidates_two_dimensions() {
    // A free particle in 2D is probed along both axes and in the one plane.
    let c = symmetry_candidates(2);
    assert_eq!(
        c,
        vec![
            SymmetryCandidate::Translation { axis: 0 },
            SymmetryCandidate::Translation { axis: 1 },
            SymmetryCandidate::Rotation { axis_i: 0, axis_j: 1 },
        ]
    );
    let translations = c.iter().filter(|k| matches!(k, SymmetryCandidate::Translation { .. })).count();
    assert!(translations >= 2);
}

#[test]
fn candidates_three_dimensions() {
    let c = symmetry_candidates(3);
    assert_eq!(c.len(), 3 + 3);
    assert_eq!(c[3], SymmetryCandidate::Rotation { axis_i: 0, axis_j: 1 });
    assert_eq!(c[4], SymmetryCandidate::Rotation { axis_i: 0, axis_j: 2 });
    assert_eq!(c[5], SymmetryCandidate::Rotation { axis_i: 1, axis_j: 2 });
}

#[test]
fn candidates_edge_dimensions() {
    assert!(symmetry_candidates(0).is_empty());
    assert_eq!(symmetry_candidates(1), vec![SymmetryCandidate::Translation { axis: 0 }]);
    // dim + dim(dim - 1)/2
    assert_eq!(symmetry_candidates(6).len(), 6 + 15);
}
