use disc_remuxer::check::{check, check_eq, check_in_range};

#[test]
fn check_eq_passes() {
    assert!(check_eq("identity", 5_u32, 5_u32));
}

#[test]
fn check_eq_fails() {
    assert!(!check_eq("mismatch", 5_u32, 6_u32));
}

#[test]
fn check_in_range_works() {
    assert!(check_in_range("in", 5, 10));
    assert!(check_in_range("boundary", 10, 10));
    assert!(!check_in_range("out", 11, 10));
}

#[test]
fn check_custom_predicate() {
    assert!(check("starts with magic", "00 00 01 BA", || true));
    assert!(!check("starts with magic", "00 00 01 BA", || false));
}
