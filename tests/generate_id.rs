use stop_sync::generate_id::generate_stop_id;

#[test]
fn test_basic_increment() {
    assert_eq!(generate_stop_id("ST000000", 0), "ST000001");
    assert_eq!(generate_stop_id("ST000000", 1), "ST000002");
    assert_eq!(generate_stop_id("ST000000", 9), "ST000010");
}

#[test]
fn test_different_prefix() {
    assert_eq!(generate_stop_id("ABC123", 0), "ABC124");
    assert_eq!(generate_stop_id("XYZ000", 1), "XYZ002");
    assert_eq!(generate_stop_id("T-", 2), "T-3");
}

#[test]
fn test_leading_zeros() {
    assert_eq!(generate_stop_id("ST000000", 99), "ST000100");
    assert_eq!(generate_stop_id("ST000", 0), "ST001");
    assert_eq!(generate_stop_id("ST00", 9), "ST10");
}

#[test]
fn test_no_digits_in_pattern() {
    assert_eq!(generate_stop_id("STOP", 0), "STOP1");
    assert_eq!(generate_stop_id("ID-", 5), "ID-6");
}

#[test]
fn test_large_index() {
    assert_eq!(generate_stop_id("ST000000", 999), "ST001000");
    assert_eq!(generate_stop_id("ST000000", 10000), "ST010001");
}

#[test]
fn test_empty_pattern() {
    assert_eq!(generate_stop_id("", 0), "1");
    assert_eq!(generate_stop_id("", 5), "6");
}

#[test]
fn overflowing_width_grows() {
    assert_eq!(generate_stop_id("ST9", 0), "ST10");
    assert_eq!(generate_stop_id("ST99", 5), "ST105");
    assert_eq!(generate_stop_id("A0", 123), "A124");
}

#[test]
fn suffix_keeps_width_and_value() {
    let r = generate_stop_id("RT0042", 7);
    assert_eq!(r, "RT0050");
    let tail = &r[2..];
    assert!(tail.len() >= 4);
    assert_eq!(tail.parse::<usize>().unwrap(), 42 + 7 + 1);
}

#[test]
fn non_numeric_suffix_is_not_padded() {
    assert_eq!(generate_stop_id("T-3a", 0), "T-1");
    assert_eq!(generate_stop_id("X1Y", 8), "X9");
    assert_eq!(generate_stop_id("Ω", 0), "Ω1");
}

#[test]
fn suffix_too_large_for_usize_is_not_a_number() {
    assert_eq!(generate_stop_id("N99999999999999999999", 0), "N1");
}

#[test]
fn largest_index_does_not_overflow() {
    let r = generate_stop_id("S0", usize::MAX);
    assert_eq!(r, format!("S{}", (usize::MAX as u128) + 1));
}
