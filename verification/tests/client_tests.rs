use network_client::address::format_address;
use network_client::client::connection_from_parts;
use network_client::client::connections_from_snapshot;
use network_client::client::Enumeration;
use network_client::model::Ipv4Config;
use network_client::model::NetworkConnection;
use network_client::model::ServiceError;
use network_client::model::WirelessSettings;

fn err(text: &str) -> ServiceError {
    ServiceError::new(text.to_string())
}

fn ipv4(gateway: &str, nameservers: &[&str], addresses: &[(&str, u32)]) -> Ipv4Config {
    Ipv4Config {
        method: "auto".to_string(),
        gateway: gateway.to_string(),
        nameservers: nameservers.iter().map(|s| s.to_string()).collect(),
        addresses: addresses.iter().map(|(ip, p)| (ip.to_string(), *p)).collect(),
    }
}

fn wireless(ssid: &str) -> WirelessSettings {
    WirelessSettings {
        mode: "infrastructure".to_string(),
        password: "pw".to_string(),
        security: "wpa-psk".to_string(),
        ssid: ssid.to_string(),
    }
}

#[test]
fn format_address_joins_with_slash() {
    assert_eq!(format_address("10.0.0.5", 24), "10.0.0.5/24");
}

#[test]
fn format_address_zero_prefix() {
    assert_eq!(format_address("0.0.0.0", 0), "0.0.0.0/0");
}

#[test]
fn format_address_largest_prefix_value() {
    assert_eq!(format_address("a", 4294967295), "a/4294967295");
}

#[test]
fn record_formats_addresses_in_order() {
    let cfg = ipv4("10.0.0.1", &["10.0.0.53"], &[("10.0.0.5", 24), ("192.168.1.2", 16)]);
    let rec = connection_from_parts("eth0".to_string(), cfg, None);
    assert_eq!(rec.addresses, vec!["10.0.0.5/24".to_string(), "192.168.1.2/16".to_string()]);
    assert_eq!(rec.name, "eth0");
    assert_eq!(rec.gateway, "10.0.0.1");
    assert_eq!(rec.nameservers, vec!["10.0.0.53".to_string()]);
    assert!(rec.wireless.is_none());
}

#[test]
fn record_keeps_wireless_settings() {
    let cfg = ipv4("10.0.0.1", &[], &[]);
    let rec = connection_from_parts("wlan0".to_string(), cfg, Some(wireless("home")));
    let w = rec.wireless.expect("wireless settings were given");
    assert_eq!(w.ssid, "home");
    assert_eq!(w.mode, "infrastructure");
    assert_eq!(w.security, "wpa-psk");
}

#[test]
fn one_record_per_path_in_listing_order() {
    let paths = vec!["a".to_string(), "b".to_string(), "c".to_string()];
    let ipv4s = vec![
        Ok(ipv4("1.1.1.1", &[], &[])),
        Ok(ipv4("2.2.2.2", &[], &[])),
        Ok(ipv4("3.3.3.3", &[], &[])),
    ];
    let wifi = vec![Err(err("no object")), Ok(wireless("net-b")), Err(err("no object"))];
    let records = connections_from_snapshot(paths, ipv4s, wifi).expect("all IPv4 reads succeed");
    assert_eq!(records.len(), 3);
    assert_eq!(records[0].name, "a");
    assert_eq!(records[1].name, "b");
    assert_eq!(records[2].name, "c");
    assert_eq!(records[0].gateway, "1.1.1.1");
    assert_eq!(records[2].gateway, "3.3.3.3");
}

#[test]
fn wireless_failure_leaves_field_absent_and_call_succeeds() {
    let paths = vec!["wired".to_string()];
    let ipv4s = vec![Ok(ipv4("10.0.0.1", &[], &[("10.0.0.5", 24)]))];
    let wifi = vec![Err(err("object not present"))];
    let records = connections_from_snapshot(paths, ipv4s, wifi).expect("wireless failure is soft");
    assert_eq!(records.len(), 1);
    assert!(records[0].wireless.is_none());
}

#[test]
fn wireless_success_is_carried() {
    let paths = vec!["wlan0".to_string()];
    let ipv4s = vec![Ok(ipv4("10.0.0.1", &[], &[]))];
    let wifi = vec![Ok(wireless("attic"))];
    let records = connections_from_snapshot(paths, ipv4s, wifi).expect("all reads succeed");
    assert_eq!(records[0].wireless.as_ref().expect("wireless present").ssid, "attic");
}

#[test]
fn ipv4_failure_fails_the_whole_call() {
    let paths = vec!["a".to_string(), "b".to_string(), "c".to_string()];
    let ipv4s = vec![
        Ok(ipv4("1.1.1.1", &[], &[])),
        Err(err("read failed")),
        Ok(ipv4("3.3.3.3", &[], &[])),
    ];
    let wifi = vec![Err(err("x")), Err(err("x")), Ok(wireless("net"))];
    let out = connections_from_snapshot(paths, ipv4s, wifi);
    assert_eq!(out, Err(err("read failed")));
}

#[test]
fn first_hard_failure_in_path_order_is_reported() {
    let paths = vec!["a".to_string(), "b".to_string(), "c".to_string()];
    let ipv4s = vec![
        Ok(ipv4("1.1.1.1", &[], &[])),
        Err(err("first")),
        Err(err("second")),
    ];
    let wifi = vec![Err(err("x")), Err(err("x")), Err(err("x"))];
    let out = connections_from_snapshot(paths, ipv4s, wifi);
    assert_eq!(out, Err(err("first")));
}

#[test]
fn unchanged_snapshot_enumerates_identically() {
    let snapshot = || {
        (
            vec!["a".to_string(), "b".to_string()],
            vec![
                Ok(ipv4("1.1.1.1", &["9.9.9.9"], &[("10.0.0.5", 24)])),
                Ok(ipv4("2.2.2.2", &[], &[])),
            ],
            vec![Ok(wireless("net-a")), Err(err("no object"))],
        )
    };
    let (p1, i1, w1) = snapshot();
    let (p2, i2, w2) = snapshot();
    let first = connections_from_snapshot(p1, i1, w1);
    let second = connections_from_snapshot(p2, i2, w2);
    assert_eq!(first, second);
}

#[test]
fn empty_listing_yields_empty_list() {
    let out = connections_from_snapshot(vec![], vec![], vec![]);
    assert_eq!(out, Ok(vec![]));
}

#[test]
fn service_error_keeps_its_text() {
    let e = ServiceError::new("bus unreachable".to_string());
    assert_eq!(e.message, "bus unreachable");
}

#[test]
fn enumeration_steps_through_each_path() {
    let mut q = Enumeration::new(vec!["a".to_string(), "b".to_string()]);
    let first = q.next_path().expect("two paths listed");
    assert_eq!(first, "a");
    q.apply_ipv4(Ok(ipv4("1.1.1.1", &[], &[]))).expect("hard read succeeded");
    q.apply_wireless(Ok(wireless("net-a")));
    let second = q.next_path().expect("one path left");
    assert_eq!(second, "b");
    q.apply_ipv4(Ok(ipv4("2.2.2.2", &[], &[]))).expect("hard read succeeded");
    q.apply_wireless(Err(err("no object")));
    assert!(q.done());
    assert!(q.next_path().is_none());
    let records = q.finish();
    assert_eq!(records.len(), 2);
    assert_eq!(records[0].name, "a");
    assert!(records[0].wireless.is_some());
    assert_eq!(records[1].name, "b");
    assert!(records[1].wireless.is_none());
}

#[test]
fn enumeration_hands_back_hard_failure_unchanged() {
    let mut q = Enumeration::new(vec!["a".to_string()]);
    assert_eq!(q.next_path(), Some("a".to_string()));
    let out = q.apply_ipv4(Err(err("lookup failed")));
    assert_eq!(out, Err(err("lookup failed")));
    assert_eq!(q.records.len(), 0);
    assert_eq!(q.index, 0);
}

#[test]
fn record_with_no_addresses_has_empty_list() {
    let cfg = ipv4("10.0.0.1", &[], &[]);
    let rec = connection_from_parts("eth1".to_string(), cfg, None);
    assert!(rec.addresses.is_empty());
}
