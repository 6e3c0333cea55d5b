use kv_harness::message::absent_probe_key;
use kv_harness::message::bulk_key;
use kv_harness::message::bulk_value;
use kv_harness::message::create_put_kv_request;
use kv_harness::message::to_decimal;
use kv_harness::order::bytes_eq;
use kv_harness::order::bytes_lt;
use kv_harness::payload::generate_random_bytes;

#[test]
fn generate_zero_is_empty() {
    assert!(generate_random_bytes(0).is_empty());
}

#[test]
fn generate_has_exact_length() {
    for n in [1usize, 2, 16, 255, 256, 3073, 3074] {
        assert_eq!(generate_random_bytes(n).len(), n);
    }
}

#[test]
fn put_request_carries_max_size_payloads() {
    let req = create_put_kv_request(kv_harness::MAX_KEY_SIZE, kv_harness::MAX_VALUE_SIZE);
    assert_eq!(req.entry.key.len(), 256);
    assert_eq!(req.entry.value.len(), 3074);
}

#[test]
fn decimal_rendering() {
    assert_eq!(to_decimal(0), b"0".to_vec());
    assert_eq!(to_decimal(7), b"7".to_vec());
    assert_eq!(to_decimal(13), b"13".to_vec());
    assert_eq!(to_decimal(400), b"400".to_vec());
}

#[test]
fn bulk_names_follow_the_scheme() {
    assert_eq!(bulk_key(0), b"xiao0".to_vec());
    assert_eq!(bulk_key(19), b"xiao19".to_vec());
    assert_eq!(bulk_value(0), b"chen0".to_vec());
    assert_eq!(bulk_value(19), b"chen19".to_vec());
    assert_eq!(absent_probe_key(), b"xiao".to_vec());
}

#[test]
fn byte_order_is_lexicographic() {
    assert!(bytes_lt(&b"a".to_vec(), &b"b".to_vec()));
    assert!(!bytes_lt(&b"b".to_vec(), &b"a".to_vec()));
    assert!(bytes_lt(&b"xiao".to_vec(), &b"xiao0".to_vec()));
    assert!(bytes_lt(&b"xiao1".to_vec(), &b"xiao10".to_vec()));
    assert!(bytes_lt(&b"xiao19".to_vec(), &b"xiao2".to_vec()));
    assert!(!bytes_lt(&b"same".to_vec(), &b"same".to_vec()));
}

#[test]
fn byte_equality() {
    assert!(bytes_eq(&b"same".to_vec(), &b"same".to_vec()));
    assert!(!bytes_eq(&b"one".to_vec(), &b"two".to_vec()));
    assert!(!bytes_eq(&b"ab".to_vec(), &b"abc".to_vec()));
    assert!(bytes_eq(&Vec::new(), &Vec::new()));
}
