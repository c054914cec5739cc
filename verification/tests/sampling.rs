use autoeq::sampling::{distinct_indices, pick_distinct};
use rand::SeedableRng;

#[test]
fn picks_skip_the_excluded_member() {
    assert_eq!(pick_distinct(&vec![3, 1, 4, 0, 2], 4, 3), vec![3, 1, 0]);
    assert_eq!(pick_distinct(&vec![2, 0, 1], 0, 0), vec![2, 1]);
}

#[test]
fn distinct_indices_are_distinct_and_in_range() {
    let mut rng = rand::rngs::StdRng::seed_from_u64(7);
    for _ in 0..50 {
        let v = distinct_indices(2, 4, 10, &mut rng);
        assert_eq!(v.len(), 4);
        for (i, a) in v.iter().enumerate() {
            assert!(*a < 10 && *a != 2);
            for b in v.iter().skip(i + 1) {
                assert_ne!(a, b);
            }
        }
    }
    let all = distinct_indices(0, 4, 5, &mut rng);
    let mut sorted = all.clone();
    sorted.sort();
    assert_eq!(sorted, vec![1, 2, 3, 4]);
}

#[test]
fn draws_vary_with_the_generator() {
    let mut rng = rand::rngs::StdRng::seed_from_u64(11);
    let first = distinct_indices(0, 3, 20, &mut rng);
    let mut differs = false;
    for _ in 0..20 {
        if distinct_indices(0, 3, 20, &mut rng) != first {
            differs = true;
        }
    }
    assert!(differs);
}
