use homology::{Interval, PersistenceInvariantDescriptor};

#[test]
fn test_invariant_initialization() {
    let descriptor: PersistenceInvariantDescriptor<Interval<i32>, u32> =
        PersistenceInvariantDescriptor::new();
    assert!(descriptor.clone().get_dimensions().is_empty());
    assert!(descriptor.clone().get_intervals_at_dimension(0).is_empty());
    assert!(descriptor.clone().get_generators_at_dimension(0).is_empty());
    assert!(descriptor.get_interval_generator_pairs_at_dimension(0).is_empty());
}

#[test]
fn lists_grow_in_step() {
    let mut d: PersistenceInvariantDescriptor<Interval<i32>, u32> =
        PersistenceInvariantDescriptor::new();
    d.add_interval(1, Interval::finite_closed_interval(0, 3), 7);
    d.add_interval(1, Interval::right_infinite_closed_interval(2), 8);
    d.add_interval(4, Interval::finite_open_interval(5, 6), 9);
    for dim in [0u32, 1, 2, 4] {
        let n = d.clone().get_intervals_at_dimension(dim).len();
        assert_eq!(d.clone().get_generators_at_dimension(dim).len(), n);
        assert_eq!(d.clone().get_interval_generator_pairs_at_dimension(dim).len(), n);
    }
    let intervals = d.clone().get_intervals_at_dimension(1);
    assert_eq!(intervals.len(), 2);
    assert!(intervals[0] == Interval::finite_closed_interval(0, 3));
    assert!(intervals[1] == Interval::right_infinite_closed_interval(2));
    assert_eq!(d.clone().get_generators_at_dimension(1), vec![7, 8]);
    let pairs = d.clone().get_interval_generator_pairs_at_dimension(4);
    assert_eq!(pairs.len(), 1);
    assert!(pairs[0].0 == Interval::finite_open_interval(5, 6));
    assert_eq!(pairs[0].1, 9);
    let mut dims = d.get_dimensions();
    dims.sort();
    assert_eq!(dims, vec![1, 4]);
}
