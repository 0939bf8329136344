use mcast_bridge::cfg::{default_packet_size, format_for_path, CfgFormat, CfgNats};
use mcast_bridge::errors::RelayError;
use mcast_bridge::init::{join_urls, nats_plan};
use mcast_bridge::netif::{find_interface_ip, interface_ipv4, NetInterface};
use mcast_bridge::addr::Ipv4Address;

#[test]
fn packet_size_defaults_to_1024() {
    assert_eq!(default_packet_size(), 1024);
}

#[test]
fn json_and_toml_extensions_are_understood() {
    assert_eq!(format_for_path("config.json"), Ok(CfgFormat::Json));
    assert_eq!(format_for_path("config.toml"), Ok(CfgFormat::Toml));
    assert_eq!(format_for_path("/etc/bridge/prod.settings.json"), Ok(CfgFormat::Json));
}

#[test]
fn other_extensions_are_configuration_errors() {
    assert_eq!(format_for_path("config"), Err(RelayError::ConfigurationError));
    assert_eq!(format_for_path("config.yaml"), Err(RelayError::ConfigurationError));
    assert_eq!(format_for_path("config.JSON"), Err(RelayError::ConfigurationError));
    assert_eq!(format_for_path("config."), Err(RelayError::ConfigurationError));
    assert_eq!(format_for_path(".json"), Err(RelayError::ConfigurationError));
    assert_eq!(format_for_path("dir.json/config"), Err(RelayError::ConfigurationError));
}

#[test]
fn urls_join_with_commas() {
    assert_eq!(join_urls(&Vec::new()), String::new());
    assert_eq!(join_urls(&vec!["a".to_string()]), "a".to_string());
    assert_eq!(
        join_urls(&vec!["nats://one:4222".to_string(), "nats://two:4222".to_string()]),
        "nats://one:4222,nats://two:4222".to_string()
    );
}

fn nats_cfg(auth: bool, user: Option<&str>, pass: Option<&str>) -> CfgNats {
    CfgNats {
        nats_url: vec!["nats://one:4222".to_string(), "nats://two:4222".to_string()],
        auth_enabled: auth,
        username: user.map(|s| s.to_string()),
        password: pass.map(|s| s.to_string()),
        tls: true,
    }
}

#[test]
fn nats_plan_without_auth_has_no_credentials() {
    let plan = nats_plan(&nats_cfg(false, None, None)).unwrap();
    assert_eq!(plan.url, "nats://one:4222,nats://two:4222".to_string());
    assert!(plan.tls);
    assert!(plan.auth.is_none());
}

#[test]
fn nats_plan_with_auth_carries_credentials() {
    let plan = nats_plan(&nats_cfg(true, Some("user"), Some("pw"))).unwrap();
    assert_eq!(plan.auth, Some(("user".to_string(), "pw".to_string())));
}

#[test]
fn nats_plan_missing_credentials_is_configuration_error() {
    assert_eq!(
        nats_plan(&nats_cfg(true, None, Some("pw"))),
        Err(RelayError::ConfigurationError)
    );
    assert_eq!(
        nats_plan(&nats_cfg(true, Some("user"), None)),
        Err(RelayError::ConfigurationError)
    );
}

fn iface(name: &str, addrs: &[(u8, u8, u8, u8)]) -> NetInterface {
    NetInterface {
        name: name.to_string(),
        ipv4: addrs
            .iter()
            .map(|&(a, b, c, d)| Ipv4Address { a, b, c, d })
            .collect(),
    }
}

#[test]
fn interface_lookup_takes_first_ipv4_of_named_interface() {
    let ifs = vec![
        iface("lo", &[(127, 0, 0, 1)]),
        iface("eth0", &[(10, 0, 0, 5), (10, 0, 0, 6)]),
    ];
    let name = "eth0".to_string();
    assert_eq!(
        find_interface_ip(&ifs, &name),
        Ok(Ipv4Address { a: 10, b: 0, c: 0, d: 5 })
    );
}

#[test]
fn unknown_interface_is_not_found() {
    let ifs = vec![iface("lo", &[(127, 0, 0, 1)])];
    let name = "eth7".to_string();
    assert_eq!(find_interface_ip(&ifs, &name), Err(RelayError::InterfaceNotFoundError));
}

#[test]
fn interface_without_ipv4_is_not_found() {
    let ifs = vec![iface("tun0", &[]), iface("tun0", &[(10, 8, 0, 1)])];
    let name = "tun0".to_string();
    // The first interface with the name counts, and it has no IPv4 address.
    assert_eq!(find_interface_ip(&ifs, &name), Err(RelayError::InterfaceNotFoundError));
}

#[test]
fn live_interface_lookup_reports_unknown_names() {
    // Whatever this machine's interfaces are, none has this name.
    let name = "no_such_interface_zz9".to_string();
    assert_eq!(interface_ipv4(&name), Err(RelayError::InterfaceNotFoundError));
}
