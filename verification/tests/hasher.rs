use djinn::hash::WHasher;

#[test]
fn hash_stays_in_range() {
    let hasher = WHasher::new(4);
    assert_eq!(hasher.hash(0), 0);
    assert_eq!(hasher.hash(u64::MAX), 3);
    assert_eq!(hasher.hash(u64::MAX / 4), 1);
    assert_eq!(hasher.hash(u64::MAX / 4 - 1), 0);
}
