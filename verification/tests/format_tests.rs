use polykill::format::bytes_to_string;
use polykill::strutil::u64_to_string;

#[test]
fn bytes_below_kilo_render_as_bytes() {
    assert_eq!(bytes_to_string(0), "0  B");
    assert_eq!(bytes_to_string(1), "1  B");
    assert_eq!(bytes_to_string(999), "999  B");
}

#[test]
fn kilo_boundary_is_exact() {
    assert_eq!(bytes_to_string(1000), "1.0 KB");
    assert_eq!(bytes_to_string(1999), "1.9 KB");
    assert_eq!(bytes_to_string(2000), "2.0 KB");
    assert_eq!(bytes_to_string(999_999), "999.9 KB");
}

#[test]
fn mega_boundary_is_exact() {
    assert_eq!(bytes_to_string(1_000_000), "1.0 MB");
    assert_eq!(bytes_to_string(1_500_000), "1.5 MB");
    assert_eq!(bytes_to_string(999_999_999), "999.9 MB");
}

#[test]
fn giga_and_tera_boundaries_are_exact() {
    assert_eq!(bytes_to_string(1_000_000_000), "1.0 GB");
    assert_eq!(bytes_to_string(999_999_999_999), "999.9 GB");
    assert_eq!(bytes_to_string(1_000_000_000_000), "1.0 TB");
    assert_eq!(bytes_to_string(123_456_789_000_000), "123.4 TB");
}

#[test]
fn decimal_rendering_matches() {
    assert_eq!(u64_to_string(0), "0");
    assert_eq!(u64_to_string(7), "7");
    assert_eq!(u64_to_string(12345), "12345");
    assert_eq!(u64_to_string(u64::MAX), format!("{}", u64::MAX));
}
