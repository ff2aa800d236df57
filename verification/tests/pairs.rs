use lau_noether_agents::pairs::ordered_pairs;

#[test]
fn pairs_of_small_sets() {
    assert!(ordered_pairs(0).is_empty());
    assert!(ordered_pairs(1).is_empty());
    assert_eq!(ordered_pairs(2), vec![(0, 1)]);
    assert_eq!(ordered_pairs(3), vec![(0, 1), (0, 2), (1, 2)]);
}

#[test]
fn pairs_count_and_uniqueness() {
    let n: usize = 7;
    let p = ordered_pairs(n);
    assert_eq!(p.len(), n * (n - 1) / 2);
    for i in 0..n {
        for j in (i + 1)..n {
            assert_eq!(p.iter().filter(|&&x| x == (i, j)).count(), 1);
        }
    }
    for w in p.windows(2) {
        assert!(w[0] < w[1]);
    }
    assert!(p.iter().all(|&(i, j)| i < j && j < n));
}

#[test]
fn pairwise_forces_sum_to_zero() {
    // Equal and opposite pair forces g(i, j) = 3i − 7j + 1 on five agents.
    let n: usize = 5;
    let mut net: Vec<i64> = vec![0; n];
    for (i, j) in ordered_pairs(n) {
        let g: i64 = 3 * i as i64 - 7 * j as i64 + 1;
        net[i] += g;
        net[j] -= g;
    }
    assert_eq!(net, vec![-66, -45, -12, 33, 90]);
    assert_eq!(net.iter().sum::<i64>(), 0);
}
