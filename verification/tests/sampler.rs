use jeopardy::game::board::Location;
use rand::Rng;

fn loc(category: usize, row: usize) -> Location {
    Location { category, row }
}

#[test]
fn sampling_draws_the_largest_keys_first() {
    let keys = vec![5, 9, 1, 9, 3, 7, 0, 2, 8, 6];
    let drawn = Location::gen_random_locations(&keys, 4, 2).unwrap();
    assert_eq!(drawn, vec![loc(0, 1), loc(0, 3), loc(1, 3), loc(1, 0)]);
}

#[test]
fn sampling_breaks_ties_by_position() {
    let keys = vec![4; 10];
    let drawn = Location::gen_random_locations(&keys, 10, 2).unwrap();
    let expected: Vec<Location> = (0..10).map(|i| loc(i / 5, i % 5)).collect();
    assert_eq!(drawn, expected);
}

#[test]
fn sampling_yields_distinct_locations() {
    let keys: Vec<u64> = (0..30u64).map(|i| (i * 7919) % 13).collect();
    for n in 0..=30 {
        let drawn = Location::gen_random_locations(&keys, n, 6).unwrap();
        assert_eq!(drawn.len(), n);
        for (i, a) in drawn.iter().enumerate() {
            assert!(a.row < 5 && a.category < 6);
            for b in &drawn[i + 1..] {
                assert_ne!(a, b);
            }
        }
    }
}

#[test]
fn sampling_is_fixed_by_the_keys() {
    let keys: Vec<u64> = (0..25u64).map(|i| (i * 2654435761) % 1000).collect();
    let first = Location::gen_random_locations(&keys, 7, 5);
    let second = Location::gen_random_locations(&keys, 7, 5);
    assert_eq!(first, second);
    let more = Location::gen_random_locations(&keys, 8, 5).unwrap();
    assert_eq!(&more[..7], &first.unwrap()[..]);
}

#[test]
fn sampling_more_than_there_are_squares_fails() {
    let keys = vec![1, 2, 3, 4, 5];
    assert!(Location::gen_random_locations(&keys, 6, 1).is_none());
    assert!(Location::gen_random_locations(&keys, 5, 1).is_some());
    assert!(Location::gen_random_locations(&vec![], 1, 0).is_none());
    assert_eq!(Location::gen_random_locations(&vec![], 0, 0), Some(vec![]));
}

#[test]
fn flat_index_counts_down_each_category_in_turn() {
    let keys = vec![0, 0, 0, 0, 0, 0, 0, 9, 0, 0, 0, 0, 0, 0, 0];
    let drawn = Location::gen_random_locations(&keys, 1, 3).unwrap();
    assert_eq!(drawn, vec![loc(1, 2)]);
}

#[test]
fn keys_made_from_a_seed_give_the_same_squares_again() {
    let weights = [0.002f64, 0.113, 0.261, 0.375, 0.247];
    let draw = |seed: u32| -> Vec<Location> {
        let mut rng = jeopardy::seed::Seed::with_seed(seed).to_rng();
        let keys: Vec<u64> = (0..30)
            .map(|i| {
                let u: f64 = rng.gen();
                u.powf(1.0 / weights[i % 5]).to_bits()
            })
            .collect();
        Location::gen_random_locations(&keys, 3, 6).unwrap()
    };
    assert_eq!(draw(1234), draw(1234));
    assert_eq!(draw(1234).len(), 3);
}
