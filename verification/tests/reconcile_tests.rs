use ip_applet::addresses::AddressTable;
use ip_applet::names::NameSet;
use ip_applet::reconcile::reconcile;

fn table(names: &[&str]) -> AddressTable {
    let mut t = AddressTable::new();
    for n in names {
        t.insert(n.to_string(), "10.0.0.2".to_string());
    }
    t
}

fn list(names: &[&str]) -> Vec<String> {
    names.iter().map(|n| n.to_string()).collect()
}

#[test]
fn new_interface_is_enabled_and_known() {
    let mut enabled = NameSet::new();
    let mut observed = AddressTable::new();
    observed.insert("eth0".to_string(), "10.0.0.2".to_string());
    let next = reconcile(&Vec::new(), &mut enabled, &observed);
    assert_eq!(next, list(&["eth0"]));
    assert!(enabled.contains("eth0"));
    assert_eq!(enabled.names().len(), 1);
}

#[test]
fn flapping_interface_returns_at_the_end() {
    let mut enabled = NameSet::new();
    let known = list(&["eth0", "wlan0"]);
    let next = reconcile(&known, &mut enabled, &table(&["wlan0"]));
    assert_eq!(next, list(&["wlan0"]));
    let next = reconcile(&next, &mut enabled, &table(&["eth0", "wlan0"]));
    assert_eq!(next, list(&["wlan0", "eth0"]));
}

#[test]
fn unchanged_observation_moves_nothing() {
    let mut enabled = NameSet::new();
    let observed = table(&["wlan0", "eth0", "tun0"]);
    let first = reconcile(&Vec::new(), &mut enabled, &observed);
    assert_eq!(first, list(&["eth0", "tun0", "wlan0"]));
    let second = reconcile(&first, &mut enabled, &observed);
    assert_eq!(second, first);
}

#[test]
fn second_pass_changes_nothing_whatever_was_known() {
    let mut enabled = NameSet::new();
    let observed = table(&["a", "c", "e"]);
    let first = reconcile(&list(&["e", "d", "c", "b"]), &mut enabled, &observed);
    assert_eq!(first, list(&["e", "c", "a"]));
    let before: Vec<String> = enabled.names().clone();
    let second = reconcile(&first, &mut enabled, &observed);
    assert_eq!(second, first);
    assert_eq!(enabled.names(), &before);
}

#[test]
fn known_order_is_kept_and_arrivals_follow_in_ascending_order() {
    let mut enabled = NameSet::new();
    let known = list(&["wlan0", "eth0"]);
    let next = reconcile(&known, &mut enabled, &table(&["tun0", "eth0", "br0", "wlan0"]));
    assert_eq!(next, list(&["wlan0", "eth0", "br0", "tun0"]));
}

#[test]
fn only_arrivals_are_enabled() {
    let mut enabled = NameSet::new();
    enabled.insert("gone0".to_string());
    let known = list(&["eth0", "gone0"]);
    let next = reconcile(&known, &mut enabled, &table(&["eth0", "wlan0"]));
    assert_eq!(next, list(&["eth0", "wlan0"]));
    assert!(enabled.contains("wlan0"));
    assert!(!enabled.contains("eth0"));
    assert!(enabled.contains("gone0"));
}

#[test]
fn a_disabled_interface_that_stays_is_not_enabled_again() {
    let mut enabled = NameSet::new();
    let observed = table(&["eth0"]);
    let known = reconcile(&Vec::new(), &mut enabled, &observed);
    enabled.remove("eth0");
    let known = reconcile(&known, &mut enabled, &observed);
    assert_eq!(known, list(&["eth0"]));
    assert!(!enabled.contains("eth0"));
}

#[test]
fn a_returning_interface_is_enabled_again() {
    let mut enabled = NameSet::new();
    let known = reconcile(&Vec::new(), &mut enabled, &table(&["eth0"]));
    enabled.remove("eth0");
    let known = reconcile(&known, &mut enabled, &table(&[]));
    assert!(known.is_empty());
    let known = reconcile(&known, &mut enabled, &table(&["eth0"]));
    assert_eq!(known, list(&["eth0"]));
    assert!(enabled.contains("eth0"));
}

#[test]
fn empty_observation_forgets_every_interface() {
    let mut enabled = NameSet::new();
    enabled.insert("eth0".to_string());
    let next = reconcile(&list(&["eth0", "wlan0"]), &mut enabled, &AddressTable::new());
    assert!(next.is_empty());
    assert!(enabled.contains("eth0"));
}

#[test]
fn reconciled_list_holds_exactly_the_observed_names() {
    let mut enabled = NameSet::new();
    let observed = table(&["d", "b", "a"]);
    let next = reconcile(&list(&["z", "b", "y"]), &mut enabled, &observed);
    let mut sorted = next.clone();
    sorted.sort();
    assert_eq!(&sorted, observed.names());
    assert_eq!(next, list(&["b", "a", "d"]));
}
