use fleet_exec::address::{parse_address, parse_port, split_ip_port, AddressError};

#[test]
fn explicit_address_gives_one_target() {
    let t = parse_address("10.0.0.5:2222").unwrap();
    assert_eq!(t.host, "10.0.0.5");
    assert_eq!(t.port, 2222);
}

#[test]
fn address_without_colon_is_refused() {
    assert_eq!(parse_address("badinput").err(), Some(AddressError::MissingColon));
}

#[test]
fn address_with_non_numeric_port_is_refused() {
    assert_eq!(parse_address("host:ssh").err(), Some(AddressError::InvalidPort));
    assert_eq!(parse_address("host:").err(), Some(AddressError::InvalidPort));
    assert_eq!(parse_address("host:22:33").err(), Some(AddressError::InvalidPort));
}

#[test]
fn port_bounds() {
    assert_eq!(parse_port("0"), Some(0));
    assert_eq!(parse_port("22"), Some(22));
    assert_eq!(parse_port("65535"), Some(65535));
    assert_eq!(parse_port("65536"), None);
    assert_eq!(parse_port("99999999999999999999"), None);
    assert_eq!(parse_port("00022"), Some(22));
    assert_eq!(parse_port(""), None);
    assert_eq!(parse_port("12a"), None);
    assert_eq!(parse_port("-1"), None);
}

#[test]
fn split_at_first_colon() {
    assert_eq!(
        split_ip_port("10.0.0.5:2222"),
        Some(("10.0.0.5".to_string(), "2222".to_string()))
    );
    assert_eq!(
        split_ip_port("a:b:c"),
        Some(("a".to_string(), "b:c".to_string()))
    );
    assert_eq!(split_ip_port(":"), Some((String::new(), String::new())));
    assert_eq!(split_ip_port("nocolon"), None);
}
