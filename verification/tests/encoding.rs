use utxo_reducer::encoding::decimal_encode;

#[test]
fn decimal_encode_writes_every_digit() {
    assert_eq!(decimal_encode(0), "0");
    assert_eq!(decimal_encode(7), "7");
    assert_eq!(decimal_encode(10), "10");
    assert_eq!(decimal_encode(305), "305");
    assert_eq!(decimal_encode(1234567890), "1234567890");
    assert_eq!(decimal_encode(u64::MAX), "18446744073709551615");
}

#[test]
fn decimal_encode_agrees_with_std() {
    let mut n: u64 = 1;
    for _ in 0..64 {
        assert_eq!(decimal_encode(n), n.to_string());
        assert_eq!(decimal_encode(n - 1), (n - 1).to_string());
        n = n.wrapping_mul(3).wrapping_add(11);
    }
}
