use tectonic_driver::digest::DigestData;

#[test]
fn digest_of_nothing_is_shown_in_hex() {
    assert_eq!(
        DigestData::of_nothing().to_string(),
        "e3b0c44298fc1c149afbf4c8996fb92427ae41e4649b934ca495991b7852b855"
    );
}

#[test]
fn digest_is_shown_byte_by_byte() {
    let mut bytes = [0u8; 32];
    bytes[0] = 0x01;
    bytes[1] = 0xab;
    bytes[31] = 0xf0;
    let shown = DigestData::from_bytes(bytes).to_string();
    assert_eq!(shown.len(), 64);
    assert_eq!(&shown[..6], "01ab00");
    assert_eq!(&shown[60..], "00f0");
}

#[test]
fn digests_are_the_same_if_all_bytes_are() {
    let mut bytes = [7u8; 32];
    let first = DigestData::from_bytes(bytes);
    bytes[31] = 8;
    let second = DigestData::from_bytes(bytes);
    assert!(first.same_as(&first));
    assert!(!first.same_as(&second));
    assert!(first == first);
    assert!(first != second);
}
