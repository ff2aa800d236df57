use lau_noether_agents::cudaclaw::{discrete_charge_slots, FleetConservationReport, TRACKED_AGENTS};
use lau_noether_agents::fleet::{fleet_invariant_kinds, FleetInvariantKind, PermutationSymmetry};

#[test]
fn permutation_symmetry_fields() {
    let perm = PermutationSymmetry::new(0, 1);
    assert_eq!(perm.agent_i, 0);
    assert_eq!(perm.agent_j, 1);
}

#[test]
fn fleet_invariants_two_dimensions() {
    // 2 momentum + 1 angular
    let kinds = fleet_invariant_kinds(2);
    assert!(kinds.len() >= 3);
    assert_eq!(
        kinds,
        vec![
            FleetInvariantKind::TotalMomentum { axis: 0 },
            FleetInvariantKind::TotalMomentum { axis: 1 },
            FleetInvariantKind::TotalAngularMomentum,
        ]
    );
}

#[test]
fn fleet_invariants_one_dimension() {
    let kinds = fleet_invariant_kinds(1);
    assert!(!kinds.is_empty());
    assert_eq!(kinds, vec![FleetInvariantKind::TotalMomentum { axis: 0 }]);
    assert!(fleet_invariant_kinds(0).is_empty());
    assert_eq!(fleet_invariant_kinds(3).len(), 4);
}

#[test]
fn charge_slots_single_agent() {
    let slots = discrete_charge_slots(1, 2);
    assert!(!slots.is_empty());
    assert_eq!(slots, vec![(0, 0), (0, 1)]);
}

#[test]
fn charge_slots_cap_at_tracked_agents() {
    assert_eq!(TRACKED_AGENTS, 3);
    let slots = discrete_charge_slots(5, 2);
    assert_eq!(slots, vec![(0, 0), (0, 1), (1, 0), (1, 1), (2, 0), (2, 1)]);
    assert_eq!(discrete_charge_slots(2, 3).len(), 6);
    assert!(discrete_charge_slots(0, 2).is_empty());
    assert!(discrete_charge_slots(4, 0).is_empty());
}

#[test]
fn report_all_conserved_only_when_each_is() {
    for &e in &[false, true] {
        for &m in &[false, true] {
            for &a in &[false, true] {
                let r = FleetConservationReport::from_checks(e, m, a);
                assert_eq!(r.energy_conserved, e);
                assert_eq!(r.momentum_conserved, m);
                assert_eq!(r.angular_momentum_conserved, a);
                assert_eq!(r.all_conserved, e && m && a);
            }
        }
    }
}
