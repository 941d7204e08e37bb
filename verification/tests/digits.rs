use memprobe::decimal::{decimal_bytes, push_decimal};

#[test]
fn single_digits() {
    for n in 0u64..10 {
        assert_eq!(decimal_bytes(n), vec![b'0' + n as u8]);
    }
}

#[test]
fn zero_is_one_digit() {
    assert_eq!(decimal_bytes(0), b"0".to_vec());
}

#[test]
fn powers_of_ten_and_their_neighbours() {
    assert_eq!(decimal_bytes(9), b"9".to_vec());
    assert_eq!(decimal_bytes(10), b"10".to_vec());
    assert_eq!(decimal_bytes(11), b"11".to_vec());
    assert_eq!(decimal_bytes(99), b"99".to_vec());
    assert_eq!(decimal_bytes(100), b"100".to_vec());
    assert_eq!(decimal_bytes(1_000_000), b"1000000".to_vec());
    assert_eq!(decimal_bytes(999_999), b"999999".to_vec());
}

#[test]
fn the_largest_value() {
    assert_eq!(decimal_bytes(u64::MAX), b"18446744073709551615".to_vec());
}

#[test]
fn digits_agree_with_std_formatting() {
    let mut n: u64 = 1;
    for _ in 0..64 {
        assert_eq!(decimal_bytes(n), n.to_string().into_bytes());
        assert_eq!(decimal_bytes(n - 1), (n - 1).to_string().into_bytes());
        n = n.wrapping_mul(3).wrapping_add(7);
    }
}

#[test]
fn digits_read_back_as_the_number() {
    for n in [0u64, 5, 42, 1234, 4096, 8_589_934_592, u64::MAX] {
        let text = String::from_utf8(decimal_bytes(n)).unwrap();
        assert_eq!(text.parse::<u64>().unwrap(), n);
    }
}

#[test]
fn pushing_keeps_what_was_there() {
    let mut out = b"x=".to_vec();
    push_decimal(&mut out, 305);
    assert_eq!(out, b"x=305".to_vec());
    push_decimal(&mut out, 0);
    assert_eq!(out, b"x=3050".to_vec());
}
