use ip_applet::addresses::{collect_addresses, AddressTable, InterfaceRecord};

fn record(name: &str, loopback: bool, ipv4: Option<&str>) -> InterfaceRecord {
    InterfaceRecord { name: name.to_string(), loopback, ipv4: ipv4.map(|a| a.to_string()) }
}

fn names_of(table: &AddressTable) -> Vec<&str> {
    table.names().iter().map(|n| n.as_str()).collect()
}

#[test]
fn new_table_is_empty() {
    let t = AddressTable::new();
    assert!(t.names().is_empty());
    assert_eq!(t.get("eth0"), None);
}

#[test]
fn insert_then_get() {
    let mut t = AddressTable::new();
    t.insert("eth0".to_string(), "10.0.0.2".to_string());
    assert_eq!(t.get("eth0"), Some(&"10.0.0.2".to_string()));
    assert_eq!(t.get("eth1"), None);
    assert_eq!(t.get("eth"), None);
}

#[test]
fn insert_replaces_the_address_of_a_known_name() {
    let mut t = AddressTable::new();
    t.insert("eth0".to_string(), "10.0.0.2".to_string());
    t.insert("wlan0".to_string(), "192.168.1.7".to_string());
    t.insert("eth0".to_string(), "10.0.0.9".to_string());
    assert_eq!(t.get("eth0"), Some(&"10.0.0.9".to_string()));
    assert_eq!(t.get("wlan0"), Some(&"192.168.1.7".to_string()));
    assert_eq!(names_of(&t), vec!["eth0", "wlan0"]);
}

#[test]
fn names_come_in_ascending_order() {
    let mut t = AddressTable::new();
    for n in ["wlan0", "eth0", "tun0", "br0", "eth1"] {
        t.insert(n.to_string(), "1.2.3.4".to_string());
    }
    assert_eq!(names_of(&t), vec!["br0", "eth0", "eth1", "tun0", "wlan0"]);
}

#[test]
fn a_prefix_comes_before_the_longer_name() {
    let mut t = AddressTable::new();
    for n in ["eth10", "eth1", "eth", "eth2"] {
        t.insert(n.to_string(), "1.2.3.4".to_string());
    }
    assert_eq!(names_of(&t), vec!["eth", "eth1", "eth10", "eth2"]);
}

#[test]
fn names_are_ordered_by_code_point() {
    let mut t = AddressTable::new();
    for n in ["b", "a", "B", "é", "z", "\u{10400}", "\u{ff5e}"] {
        t.insert(n.to_string(), "1.2.3.4".to_string());
    }
    assert_eq!(names_of(&t), vec!["B", "a", "b", "z", "é", "\u{ff5e}", "\u{10400}"]);
}

#[test]
fn table_clone_is_independent() {
    let mut t = AddressTable::new();
    t.insert("eth0".to_string(), "10.0.0.2".to_string());
    let mut u = t.clone();
    u.insert("eth0".to_string(), "10.0.0.3".to_string());
    u.insert("wlan0".to_string(), "10.0.0.4".to_string());
    assert_eq!(t.get("eth0"), Some(&"10.0.0.2".to_string()));
    assert_eq!(t.get("wlan0"), None);
    assert_eq!(u.get("eth0"), Some(&"10.0.0.3".to_string()));
}

#[test]
fn loopback_is_excluded() {
    let records =
        vec![record("lo", true, Some("127.0.0.1")), record("eth0", false, Some("10.0.0.2"))];
    let t = collect_addresses(&records);
    assert_eq!(t.get("lo"), None);
    assert_eq!(names_of(&t), vec!["eth0"]);
    assert_eq!(t.get("eth0"), Some(&"10.0.0.2".to_string()));
}

#[test]
fn loopback_alone_gives_nothing() {
    let records = vec![record("lo", true, Some("127.0.0.1"))];
    let t = collect_addresses(&records);
    assert!(t.names().is_empty());
}

#[test]
fn interface_without_ipv4_is_omitted() {
    let records = vec![
        record("eth0", false, None),
        record("wlan0", false, Some("192.168.1.7")),
        record("lo", true, None),
    ];
    let t = collect_addresses(&records);
    assert_eq!(names_of(&t), vec!["wlan0"]);
    assert_eq!(t.get("eth0"), None);
}

#[test]
fn later_record_of_a_name_wins() {
    let records = vec![
        record("eth0", false, Some("10.0.0.2")),
        record("eth0", false, None),
        record("eth0", false, Some("10.0.0.3")),
        record("eth0", true, Some("127.0.0.2")),
    ];
    let t = collect_addresses(&records);
    assert_eq!(names_of(&t), vec!["eth0"]);
    assert_eq!(t.get("eth0"), Some(&"10.0.0.3".to_string()));
}

#[test]
fn no_records_give_an_empty_table() {
    let t = collect_addresses(&Vec::new());
    assert!(t.names().is_empty());
}
