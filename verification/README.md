# lau-noether-agents

Noether's theorem for agent systems: every symmetry of the dynamics yields a
conserved quantity. Agents carry generalized coordinates (q, q̇); symmetries
are probed for invariance of the Lagrangian, their charges Q = p · δq are
tracked along symplectic simulations, and fleets of identical agents get
fleet-level charges from permutation symmetry.

## Layout

- `src/` is the verified library (Verus). It holds the index structure and
  the decisions around the floating-point arithmetic, each function with an
  exact contract:
  - `noether`: translation, rotation and time-translation symmetries, their
    names, and the coordinates their variation δq touches;
  - `pairs`: the enumeration of index pairs (i, j), i < j, shared by rotation
    planes and pairwise agent interactions, with the law that it lists each
    pair exactly once;
  - `symmetry`: the scaling symmetry and the candidate symmetries probed for
    a system of a given dimension;
  - `fleet`: permutation symmetry and the fleet invariants it yields;
  - `cudaclaw`: the (agent, axis) slots of a conservation proof, the fleet
    conservation report, and the law that equal and opposite pair forces
    add up to zero;
  - `conservation`, `discrete`: the trajectory of a one-step integrator and
    the values of a quantity on consecutive states.
- `tests/` exercises the library on concrete values.
- `app/` holds the floating-point mechanics on `nalgebra` vectors
  (Lagrangians, charges, integrators, the Hamiltonian formulation, discrete
  Lagrangians, cell dynamics), built on the verified pieces above, the
  dimension checks and charge names, and the serde forms of the library's
  types.
