use sequencer::prover_map::{BatchSize, ProverMap};

fn registry_3_5_7() -> ProverMap<usize> {
    let mut prover_map: ProverMap<usize> = ProverMap::new();
    prover_map.add(3, 3);
    prover_map.add(5, 5);
    prover_map.add(7, 7);
    prover_map
}

#[test]
fn prover_map_tests() {
    let prover_map = registry_3_5_7();

    assert_eq!(prover_map.max_batch_size(), 7);

    assert_eq!(prover_map.get(1), Some(&3));
    assert_eq!(prover_map.get(2), Some(&3));
    assert_eq!(prover_map.get(3), Some(&3));
    assert_eq!(prover_map.get(4), Some(&5));
    assert_eq!(prover_map.get(7), Some(&7));
    assert!(prover_map.get(8).is_none());
}

#[test]
fn first_fit_in_any_insertion_order() {
    let mut prover_map: ProverMap<usize> = ProverMap::new();
    prover_map.add(7, 7);
    prover_map.add(3, 3);
    prover_map.add(5, 5);
    assert_eq!(prover_map.len(), 3);
    assert_eq!(prover_map.get(0), Some(&3));
    assert_eq!(prover_map.get(5), Some(&5));
    assert_eq!(prover_map.get(6), Some(&7));
    assert_eq!(prover_map.get(usize::MAX), None);
    assert_eq!(prover_map.max_batch_size(), 7);
}

#[test]
fn empty_registry_has_nothing() {
    let prover_map: ProverMap<usize> = ProverMap::new();
    assert_eq!(prover_map.len(), 0);
    assert_eq!(prover_map.max_batch_size(), 0);
    assert!(prover_map.get(0).is_none());
    assert!(prover_map.get(1).is_none());
    assert!(prover_map.get(usize::MAX).is_none());
    assert!(!prover_map.batch_size_exists(0));
}

#[test]
fn add_replaces_same_ceiling() {
    let mut prover_map = registry_3_5_7();
    prover_map.add(5, 50);
    assert_eq!(prover_map.len(), 3);
    assert_eq!(prover_map.get(4), Some(&50));
    assert_eq!(prover_map.get(3), Some(&3));
}

#[test]
fn remove_returns_prior_registration() {
    let mut prover_map = registry_3_5_7();
    assert_eq!(prover_map.remove(4), None);
    assert_eq!(prover_map.len(), 3);
    assert_eq!(prover_map.remove(5), Some(5));
    assert_eq!(prover_map.len(), 2);
    assert_eq!(prover_map.get(4), Some(&7));
    assert_eq!(prover_map.remove(5), None);
    assert_eq!(prover_map.remove(7), Some(7));
    assert_eq!(prover_map.max_batch_size(), 3);
    assert_eq!(prover_map.get(4), None);
}

#[test]
fn exact_membership_differs_from_range_lookup() {
    let prover_map = registry_3_5_7();
    assert!(prover_map.batch_size_exists(3));
    assert!(prover_map.batch_size_exists(5));
    assert!(prover_map.batch_size_exists(7));
    assert!(!prover_map.batch_size_exists(4));
    assert!(prover_map.get(4).is_some());
    assert!(!prover_map.batch_size_exists(8));
}

#[test]
fn batch_size_listing_is_ascending() {
    let mut prover_map: ProverMap<String> = ProverMap::new();
    prover_map.add(10, "http://b".to_string());
    prover_map.add(1, "http://a".to_string());
    let list: Vec<BatchSize> = prover_map.as_batch_size_vec();
    assert_eq!(list.len(), 2);
    assert_eq!(list[0].batch_size, 1);
    assert_eq!(list[0].prover_url, "http://a");
    assert_eq!(list[1].batch_size, 10);
    assert_eq!(list[1].prover_url, "http://b");
    let one = BatchSize::new(4, "u".to_string());
    assert_eq!(one.batch_size, 4);
    assert_eq!(one.prover_url, "u");
}
