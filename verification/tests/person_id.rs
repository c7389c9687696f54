use people_store::person_id::extract_person_number;
use people_store::person_id::format_person_id;

#[test]
fn extract_reads_the_number() {
    assert_eq!(extract_person_number("p_001"), Some(1));
    assert_eq!(extract_person_number("p_003"), Some(3));
    assert_eq!(extract_person_number("p_1234"), Some(1234));
    assert_eq!(extract_person_number("p_0"), Some(0));
    assert_eq!(extract_person_number("p_0000000000000000000042"), Some(42));
}

#[test]
fn extract_refuses_other_forms() {
    assert_eq!(extract_person_number(""), None);
    assert_eq!(extract_person_number("p_"), None);
    assert_eq!(extract_person_number("p"), None);
    assert_eq!(extract_person_number("q_001"), None);
    assert_eq!(extract_person_number("P_001"), None);
    assert_eq!(extract_person_number("p_12a"), None);
    assert_eq!(extract_person_number("p_-1"), None);
    assert_eq!(extract_person_number("p_+1"), None);
    assert_eq!(extract_person_number("p_ 1"), None);
    assert_eq!(extract_person_number(" p_1"), None);
    assert_eq!(extract_person_number("p_1 "), None);
    assert_eq!(extract_person_number("p_\u{661}"), None);
}

#[test]
fn extract_ignores_numbers_that_overflow() {
    assert_eq!(extract_person_number("p_4294967295"), Some(u32::MAX));
    assert_eq!(extract_person_number("p_4294967296"), None);
    assert_eq!(extract_person_number("p_99999999999999999999999999"), None);
}

#[test]
fn format_pads_to_three_digits() {
    assert_eq!(format_person_id(0), "p_000");
    assert_eq!(format_person_id(1), "p_001");
    assert_eq!(format_person_id(4), "p_004");
    assert_eq!(format_person_id(10), "p_010");
    assert_eq!(format_person_id(99), "p_099");
    assert_eq!(format_person_id(100), "p_100");
    assert_eq!(format_person_id(1000), "p_1000");
    assert_eq!(format_person_id(4294967296), "p_4294967296");
    assert_eq!(format_person_id(u64::MAX), "p_18446744073709551615");
}

#[test]
fn extract_undoes_format() {
    for n in [0u32, 1, 9, 10, 99, 100, 101, 999, 1000, 65535, u32::MAX] {
        assert_eq!(extract_person_number(&format_person_id(n as u64)), Some(n));
    }
    assert_eq!(extract_person_number(&format_person_id(u32::MAX as u64 + 1)), None);
}
