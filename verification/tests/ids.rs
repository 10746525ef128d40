use order_service::ids::{format_uuid, parse_uuid};

#[test]
fn format_zero_is_all_zero_text() {
    assert_eq!(format_uuid(0), "00000000-0000-0000-0000-000000000000");
}

#[test]
fn format_max_is_all_f_text() {
    assert_eq!(format_uuid(u128::MAX), "ffffffff-ffff-ffff-ffff-ffffffffffff");
}

#[test]
fn format_renders_nibbles_in_order() {
    let v: u128 = 0x0123_4567_89ab_cdef_0123_4567_89ab_cdef;
    assert_eq!(format_uuid(v), "01234567-89ab-cdef-0123-456789abcdef");
}

#[test]
fn parse_inverts_format() {
    let values: Vec<u128> = vec![
        0,
        1,
        0xdead_beef,
        u128::MAX,
        uuid::Uuid::new_v4().as_u128(),
    ];
    for v in values {
        assert_eq!(parse_uuid(&format_uuid(v)), Some(v));
    }
}

#[test]
fn parse_is_case_insensitive() {
    let lower = parse_uuid("01234567-89ab-cdef-0123-456789abcdef");
    let upper = parse_uuid("01234567-89AB-CDEF-0123-456789ABCDEF");
    assert!(lower.is_some());
    assert_eq!(lower, upper);
}

#[test]
fn parse_agrees_with_reference_parser() {
    let text = "67e55044-10b1-426f-9247-bb680e5fe0c8";
    let ours = parse_uuid(text).unwrap();
    let reference = uuid::Uuid::parse_str(text).unwrap().as_u128();
    assert_eq!(ours, reference);
}

#[test]
fn parse_rejects_malformed_text() {
    assert_eq!(parse_uuid(""), None);
    assert_eq!(parse_uuid("not-a-uuid"), None);
    assert_eq!(parse_uuid("0123456789ab-cdef-0123-456789abcdef"), None);
    assert_eq!(parse_uuid("01234567-89ab-cdef-0123-456789abcdeg"), None);
    assert_eq!(parse_uuid("01234567-89ab-cdef-0123-456789abcde"), None);
    assert_eq!(parse_uuid("01234567-89ab-cdef-0123-456789abcdef0"), None);
    assert_eq!(parse_uuid("01234567 89ab cdef 0123 456789abcdef"), None);
}
