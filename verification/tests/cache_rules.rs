use rudo::cache::{
    cache_is_fresh, check_auth_cache, decode_stamp, encode_stamp, needs_password,
    update_auth_cache, DEFAULT_AUTH_CACHE_DURATION, NANOS_PER_SECOND,
};

const T: u128 = 1_700_000_000 * NANOS_PER_SECOND + 123_456_789;

#[test]
fn cache_freshness_boundary() {
    let record = update_auth_cache(T);
    let window = DEFAULT_AUTH_CACHE_DURATION;
    assert!(check_auth_cache(Some(&record), T + 899 * NANOS_PER_SECOND, window));
    assert!(!check_auth_cache(Some(&record), T + 901 * NANOS_PER_SECOND, window));
    assert!(check_auth_cache(Some(&record), T + 900 * NANOS_PER_SECOND - 1, window));
    assert!(!check_auth_cache(Some(&record), T + 900 * NANOS_PER_SECOND, window));
    assert!(check_auth_cache(Some(&record), T, window));
}

#[test]
fn standard_window_is_fifteen_minutes() {
    assert_eq!(DEFAULT_AUTH_CACHE_DURATION, 15 * 60);
    assert!(cache_is_fresh(0, 899_999_999_999, 900));
    assert!(!cache_is_fresh(0, 900_000_000_000, 900));
    assert!(cache_is_fresh(10, 5, 900));
    assert!(!cache_is_fresh(5, 5, 0));
    assert!(cache_is_fresh(5, 5, 1));
}

#[test]
fn missing_or_short_record_is_no_valid_cache() {
    assert!(!check_auth_cache(None, T, 900));
    assert!(!check_auth_cache(Some(&[]), T, 900));
    assert!(!check_auth_cache(Some(&[0u8; 15]), 0, 900));
    assert!(check_auth_cache(Some(&[0u8; 16]), 0, 900));
}

#[test]
fn force_reauthentication_overrides_cache() {
    let record = update_auth_cache(T);
    let valid = check_auth_cache(Some(&record), T + 1, DEFAULT_AUTH_CACHE_DURATION);
    assert!(valid);
    assert!(needs_password(true, valid, true));
    assert!(needs_password(false, valid, true));
    assert!(!needs_password(true, valid, false));
}

#[test]
fn password_is_needed_where_required_and_not_cached() {
    assert!(needs_password(true, false, false));
    assert!(!needs_password(true, true, false));
    assert!(!needs_password(false, false, false));
    assert!(!needs_password(false, true, false));
    assert!(needs_password(false, false, true));
}

#[test]
fn record_is_sixteen_bytes_least_significant_first() {
    assert_eq!(encode_stamp(1), [1, 0, 0, 0, 0, 0, 0, 0, 0, 0, 0, 0, 0, 0, 0, 0]);
    assert_eq!(
        encode_stamp(0x0102_0304_0506_0708_090a_0b0c_0d0e_0f10),
        [0x10, 0x0f, 0x0e, 0x0d, 0x0c, 0x0b, 0x0a, 0x09, 8, 7, 6, 5, 4, 3, 2, 1]
    );
    assert_eq!(encode_stamp(u128::MAX), [0xff; 16]);
    assert_eq!(update_auth_cache(258), [2, 1, 0, 0, 0, 0, 0, 0, 0, 0, 0, 0, 0, 0, 0, 0]);
}

#[test]
fn record_reads_back_and_ignores_what_follows() {
    assert_eq!(decode_stamp(&encode_stamp(T)), Some(T));
    let mut longer = encode_stamp(T);
    longer.extend_from_slice(&[9, 9, 9]);
    assert_eq!(decode_stamp(&longer), Some(T));
    assert_eq!(decode_stamp(&encode_stamp(T)[..15]), None);
    assert_eq!(decode_stamp(&[0, 1, 0, 0, 0, 0, 0, 0, 0, 0, 0, 0, 0, 0, 0, 0]), Some(256));
    assert_eq!(decode_stamp(&encode_stamp(u128::MAX)), Some(u128::MAX));
}
