use mcast_bridge::addr::{parse_endpoint, Ipv4Address, Ipv4Endpoint};
use mcast_bridge::agent::{lookup_addr, resolve_destination, ResolvedDest};
use mcast_bridge::cfg::CfgMulticastGroup;
use mcast_bridge::errors::RelayError;

fn grp(addr: &str, interface: &str) -> CfgMulticastGroup {
    CfgMulticastGroup {
        multicast_addr: addr.to_string(),
        interface: interface.to_string(),
    }
}

fn ep(a: u8, b: u8, c: u8, d: u8, port: u16) -> Ipv4Endpoint {
    Ipv4Endpoint {
        ip: Ipv4Address { a, b, c, d },
        port,
    }
}

#[test]
fn parse_endpoint_accepts_well_formed() {
    assert_eq!(parse_endpoint("239.0.0.1:5000"), Some(ep(239, 0, 0, 1, 5000)));
    assert_eq!(parse_endpoint("10.0.0.9:6000"), Some(ep(10, 0, 0, 9, 6000)));
    assert_eq!(parse_endpoint("0.0.0.0:0"), Some(ep(0, 0, 0, 0, 0)));
    assert_eq!(
        parse_endpoint("255.255.255.255:65535"),
        Some(ep(255, 255, 255, 255, 65535))
    );
    assert_eq!(parse_endpoint("009.001.000.010:00042"), Some(ep(9, 1, 0, 10, 42)));
}

#[test]
fn parse_endpoint_rejects_malformed() {
    assert_eq!(parse_endpoint(""), None);
    assert_eq!(parse_endpoint("239.0.0.1"), None);
    assert_eq!(parse_endpoint("239.0.0:5000"), None);
    assert_eq!(parse_endpoint("239.0.0.1.2:5000"), None);
    assert_eq!(parse_endpoint("256.0.0.1:5000"), None);
    assert_eq!(parse_endpoint("239.0.0.1:65536"), None);
    assert_eq!(parse_endpoint("239.0.0.1:"), None);
    assert_eq!(parse_endpoint(":5000"), None);
    assert_eq!(parse_endpoint("239..0.1:5000"), None);
    assert_eq!(parse_endpoint("239.0.0.1:5000:6000"), None);
    assert_eq!(parse_endpoint("239.a.0.1:5000"), None);
    assert_eq!(parse_endpoint("1234.0.0.1:5000"), None);
}

#[test]
fn multicast_mode_uses_group_address() {
    let g = grp("239.0.0.1:5000", "eth0");
    let r = resolve_destination(&g, false, &None);
    assert_eq!(r, Ok(ResolvedDest::Multicast(ep(239, 0, 0, 1, 5000))));
}

#[test]
fn multicast_mode_ignores_unicast_map() {
    // Even with a map present (and holding an entry for this very group),
    // the resolved destination stays the group's own multicast address.
    let g = grp("239.0.0.1:5000", "eth0");
    let map = Some(vec![(
        "239.0.0.1:5000".to_string(),
        "10.0.0.9:6000".to_string(),
    )]);
    let r = resolve_destination(&g, false, &map);
    assert_eq!(r, Ok(ResolvedDest::Multicast(ep(239, 0, 0, 1, 5000))));
}

#[test]
fn unicast_mode_redirects_to_mapped_address() {
    let g = grp("239.0.0.1:5000", "eth0");
    let map = Some(vec![(
        "239.0.0.1:5000".to_string(),
        "10.0.0.9:6000".to_string(),
    )]);
    let r = resolve_destination(&g, true, &map);
    assert_eq!(r, Ok(ResolvedDest::Unicast(ep(10, 0, 0, 9, 6000))));
}

#[test]
fn unicast_mode_without_map_is_configuration_error() {
    let g = grp("239.0.0.1:5000", "eth0");
    let r = resolve_destination(&g, true, &None);
    assert_eq!(r, Err(RelayError::ConfigurationError));
}

#[test]
fn unicast_mode_with_missing_entry_is_configuration_error() {
    let g = grp("239.0.0.2:5000", "eth0");
    let map = Some(vec![(
        "239.0.0.1:5000".to_string(),
        "10.0.0.9:6000".to_string(),
    )]);
    let r = resolve_destination(&g, true, &map);
    assert_eq!(r, Err(RelayError::ConfigurationError));
}

#[test]
fn unicast_mode_with_malformed_entry_is_parse_error() {
    let g = grp("239.0.0.1:5000", "eth0");
    let map = Some(vec![(
        "239.0.0.1:5000".to_string(),
        "not-an-address".to_string(),
    )]);
    let r = resolve_destination(&g, true, &map);
    assert_eq!(r, Err(RelayError::AddressParseError));
}

#[test]
fn multicast_mode_with_malformed_group_is_parse_error() {
    let g = grp("badaddr", "eth0");
    let r = resolve_destination(&g, false, &None);
    assert_eq!(r, Err(RelayError::AddressParseError));
}

#[test]
fn lookup_takes_first_matching_entry() {
    let map = vec![
        ("239.0.0.1:5000".to_string(), "10.0.0.9:6000".to_string()),
        ("239.0.0.1:5000".to_string(), "10.0.0.9:7000".to_string()),
        ("239.0.0.2:5000".to_string(), "10.0.0.9:8000".to_string()),
    ];
    let key = "239.0.0.1:5000".to_string();
    assert_eq!(lookup_addr(&map, &key), Some(&"10.0.0.9:6000".to_string()));
    let absent = "239.9.9.9:1000".to_string();
    assert_eq!(lookup_addr(&map, &absent), None);
}
