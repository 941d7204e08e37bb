use memprobe::record::{header_row, sample_row, Sample};

#[test]
fn the_header_names_both_columns() {
    assert_eq!(header_row(), b"RES,VIRT\n".to_vec());
}

#[test]
fn a_row_holds_resident_then_virtual() {
    let row = sample_row(Sample { resident_bytes: 1, virtual_bytes: 2 });
    assert_eq!(row, b"1,2\n".to_vec());
    let row = sample_row(Sample { resident_bytes: 2, virtual_bytes: 1 });
    assert_eq!(row, b"2,1\n".to_vec());
}

#[test]
fn a_row_of_typical_sizes() {
    let row = sample_row(Sample { resident_bytes: 52_428_800, virtual_bytes: 2_147_483_648 });
    assert_eq!(row, b"52428800,2147483648\n".to_vec());
}

#[test]
fn a_row_of_zeros() {
    let row = sample_row(Sample { resident_bytes: 0, virtual_bytes: 0 });
    assert_eq!(row, b"0,0\n".to_vec());
}

#[test]
fn a_row_of_the_largest_sizes() {
    let row = sample_row(Sample { resident_bytes: u64::MAX, virtual_bytes: u64::MAX });
    assert_eq!(row, b"18446744073709551615,18446744073709551615\n".to_vec());
}

#[test]
fn rows_are_never_quoted() {
    for (resident, virt) in [(0u64, 1u64), (10, 100), (123_456_789, 987_654_321)] {
        let row = sample_row(Sample { resident_bytes: resident, virtual_bytes: virt });
        assert_eq!(row, format!("{},{}\n", resident, virt).into_bytes());
        assert!(!row.contains(&b'"'));
    }
}

#[test]
fn a_row_is_one_line_with_one_comma() {
    let row = sample_row(Sample { resident_bytes: 4096, virtual_bytes: 8192 });
    assert_eq!(row.iter().filter(|&&b| b == b'\n').count(), 1);
    assert_eq!(row.iter().filter(|&&b| b == b',').count(), 1);
    assert_eq!(row.last(), Some(&b'\n'));
}

#[test]
fn different_samples_have_different_rows() {
    let a = sample_row(Sample { resident_bytes: 12, virtual_bytes: 3 });
    let b = sample_row(Sample { resident_bytes: 1, virtual_bytes: 23 });
    assert_ne!(a, b);
}
