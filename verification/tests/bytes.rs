use netpacket::bytes::same_bytes;

#[test]
fn same_bytes_compares_length_and_content() {
    assert!(same_bytes(&[], &[]));
    assert!(same_bytes(&[1, 2, 3], &[1, 2, 3]));
    assert!(!same_bytes(&[1, 2, 3], &[1, 2]));
    assert!(!same_bytes(&[1, 2], &[1, 2, 3]));
    assert!(!same_bytes(&[1, 2, 3], &[1, 2, 4]));
    assert!(!same_bytes(&[0, 2, 3], &[1, 2, 3]));
    assert!(!same_bytes(&[], &[0]));
}
