use sequencer::insertion::{
    check_append, first_occurrences, partition_admitted, plan_append, resolve, three_way_zip, CycleError, Commitment,
    InclusionProof, Resolution, Status,
};

fn h(n: u128) -> Commitment {
    Commitment { hi: 0, lo: n }
}

#[test]
fn later_duplicates_in_batch_are_rejected() {
    let ids = vec![h(1), h(2), h(1), h(3), h(2), h(1)];
    assert_eq!(
        first_occurrences(&ids),
        vec![true, true, false, true, false, false]
    );
    let stored = vec![false; 6];
    let res = resolve(&ids, &stored);
    assert_eq!(
        res,
        vec![
            Resolution::Admitted,
            Resolution::Admitted,
            Resolution::DuplicateInBatch,
            Resolution::Admitted,
            Resolution::DuplicateInBatch,
            Resolution::DuplicateInBatch,
        ]
    );
    let appended = plan_append(9, 9, &ids, &res).unwrap();
    assert_eq!(appended, vec![h(1), h(2), h(3)]);
}

#[test]
fn halves_both_count_for_identity() {
    let ids = vec![Commitment { hi: 1, lo: 7 }, Commitment { hi: 2, lo: 7 }, Commitment { hi: 1, lo: 7 }];
    assert_eq!(first_occurrences(&ids), vec![true, true, false]);
}

#[test]
fn stored_identity_is_not_appended() {
    let ids = vec![h(4), h(5), h(6)];
    let stored = vec![false, true, false];
    let res = resolve(&ids, &stored);
    assert_eq!(
        res,
        vec![
            Resolution::Admitted,
            Resolution::DuplicateInStore,
            Resolution::Admitted,
        ]
    );
    assert_eq!(plan_append(0, 0, &ids, &res).unwrap(), vec![h(4), h(6)]);
}

#[test]
fn empty_batch_appends_nothing() {
    let ids: Vec<Commitment> = vec![];
    let res = resolve(&ids, &vec![]);
    assert!(res.is_empty());
    assert_eq!(plan_append(3, 3, &ids, &res).unwrap(), vec![]);
}

#[test]
fn out_of_sync_aborts_before_append() {
    let ids = vec![h(1)];
    let res = resolve(&ids, &vec![false]);
    assert_eq!(
        plan_append(5, 4, &ids, &res),
        Err(CycleError::OutOfSync {
            tree_next: 5,
            store_next: 4
        })
    );
}

#[test]
fn append_count_must_match() {
    assert_eq!(check_append(3, 3), Ok(()));
    assert_eq!(
        check_append(2, 3),
        Err(CycleError::LengthMismatch {
            appended: 2,
            submitted: 3
        })
    );
}

#[test]
fn zip_keeps_order() {
    let data = vec![(h(10), "proof-a", 0usize), (h(11), "proof-b", 1), (h(12), "proof-c", 2)];
    let ids = vec![h(1), h(2), h(3)];
    let tags = vec!['a', 'b', 'c'];
    let z = three_way_zip(data, ids, tags);
    assert_eq!(z.len(), 3);
    assert_eq!(z[0], ((h(10), "proof-a", 0), h(1), 'a'));
    assert_eq!(z[2], ((h(12), "proof-c", 2), h(3), 'c'));
}

#[test]
fn zip_stops_at_shortest() {
    let z = three_way_zip(vec![1, 2, 3], vec!['x', 'y'], vec![true, false, true, false]);
    assert_eq!(z, vec![(1, 'x', true), (2, 'y', false)]);
}

#[test]
fn pending_proof_carries_root() {
    let p = InclusionProof::pending(h(42), vec![1u8, 2]);
    assert_eq!(p.status, Status::Pending);
    assert_eq!(p.root, h(42));
    assert_eq!(p.proof, vec![1u8, 2]);
}

#[test]
fn requests_split_in_arrival_order() {
    let ids = vec![h(1), h(2), h(1), h(3), h(4)];
    let stored = vec![false, true, false, false, false];
    let res = resolve(&ids, &stored);
    let names = vec!["a", "b", "c", "d", "e"];
    let (admitted, rejected) = partition_admitted(names, &res);
    assert_eq!(admitted, vec!["a", "d", "e"]);
    assert_eq!(rejected, vec!["b", "c"]);
}
