//! Discrete mechanics: quantities defined on consecutive states of a
//! time-stepping scheme.

use vstd::prelude::*;

verus! {

/// Applies `f` to each pair of consecutive items (items[k], items[k + 1]),
/// in order; for a trajectory q_0, …, q_N this gives the N values of a
/// quantity that lives on the steps (q_k, q_{k+1}), such as the discrete
/// momentum ∂L_d/∂q_{k+1}.
pub fn map_consecutive<S, T, F: Fn(&S, &S) -> T>(items: &[S], f: &F) -> (values: Vec<T>)
    requires
        items.len() >= 1,
        forall|a: &S, b: &S| #[trigger] f.requires((a, b)),
    ensures
        values.len() == items.len() - 1,
        forall|k: int|
            0 <= k < values.len() ==> #[trigger] f.ensures((&items[k], &items[k + 1]), values[k]),
{
    let mut values: Vec<T> = Vec::new();
    let mut k: usize = 0;
    let last: usize = items.len() - 1;
    while k < last
        invariant
            k <= last,
            last == items.len() - 1,
            values.len() == k,
            forall|a: &S, b: &S| #[trigger] f.requires((a, b)),
            forall|i: int|
                0 <= i < k ==> #[trigger] f.ensures((&items[i], &items[i + 1]), values[i]),
        decreases last - k,
    {
        let v = f(&items[k], &items[k + 1]);
        values.push(v);
        k += 1;
    }
    values
}

} // verus!
