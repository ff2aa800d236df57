use lau_noether_agents::conservation::iterate_steps;
use lau_noether_agents::discrete::map_consecutive;

#[test]
fn trajectory_holds_initial_and_every_step() {
    let traj = iterate_steps(0u64, 10, &|s: &u64| s + 3);
    assert_eq!(traj.len(), 11);
    assert_eq!(traj[0], 0);
    assert_eq!(traj[10], 30);
    for k in 0..10 {
        assert_eq!(traj[k + 1], traj[k] + 3);
    }
}

#[test]
fn trajectory_of_zero_steps() {
    let traj = iterate_steps(String::from("q0"), 0, &|s: &String| s.clone() + "'");
    assert_eq!(traj, vec![String::from("q0")]);
}

#[test]
fn consecutive_values_of_uniform_motion() {
    // q_k = 3k: every step has the same displacement
    let q: Vec<i64> = (0..100).map(|k| 3 * k).collect();
    let steps = map_consecutive(&q, &|a: &i64, b: &i64| b - a);
    assert_eq!(steps.len(), 99);
    assert!(steps.iter().all(|&d| d == 3));
}

#[test]
fn consecutive_values_pair_each_neighbour() {
    let q: Vec<i32> = vec![1, 4, 9, 16];
    let pairs = map_consecutive(&q, &|a: &i32, b: &i32| (*a, *b));
    assert_eq!(pairs, vec![(1, 4), (4, 9), (9, 16)]);
    let single: Vec<(i32, i32)> = map_consecutive(&[7], &|a: &i32, b: &i32| (*a, *b));
    assert!(single.is_empty());
}
