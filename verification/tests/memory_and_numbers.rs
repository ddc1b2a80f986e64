use lx_monitor::memory::{bytes_to_mib, parse_statm, private_memory_bytes, private_memory_fits, StatmPages};
use lx_monitor::numbers::push_decimal;

#[test]
fn statm_fields() {
    assert_eq!(
        parse_statm("12345 2000 500 10 0 300 0\n"),
        Some(StatmPages { resident: 2000, shared: 500 })
    );
    assert_eq!(parse_statm("12345 2000"), None);
    assert_eq!(parse_statm("12345 x 500"), None);
    assert_eq!(parse_statm(""), None);
}

#[test]
fn private_memory_in_bytes() {
    let p = StatmPages { resident: 2000, shared: 500 };
    assert!(private_memory_fits(p, 4096));
    assert_eq!(private_memory_bytes(p, 4096), 1500 * 4096);
    let q = StatmPages { resident: 10, shared: 50 };
    assert_eq!(private_memory_bytes(q, 4096), 0);
    assert!(!private_memory_fits(StatmPages { resident: u64::MAX, shared: 0 }, 2));
}

#[test]
fn mebibytes() {
    assert_eq!(bytes_to_mib(16 * 1024 * 1024 * 1024), 16384);
    assert_eq!(bytes_to_mib(1024 * 1024 - 1), 0);
}

#[test]
fn decimal_digits() {
    for n in [0u64, 7, 10, 42, 1000, u64::MAX] {
        let mut s = String::from("x");
        push_decimal(&mut s, n);
        assert_eq!(s, format!("x{}", n));
        assert_eq!(s[1..].parse::<u64>().unwrap(), n);
    }
}
