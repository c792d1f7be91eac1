use ip_applet::addresses::AddressTable;
use ip_applet::applet::{IpApplet, Message, SettingsTab};
use ip_applet::config::{PublicIpService, TextColor};
use ip_applet::view::{
    color_choices, decimal_text, info_page, interface_switches, marked_label, rate_choices,
    service_choices, tab_bar, NO_INTERFACES, PUBLIC_IP_LABEL,
};

fn observed(pairs: &[(&str, &str)]) -> AddressTable {
    let mut t = AddressTable::new();
    for (n, a) in pairs {
        t.insert(n.to_string(), a.to_string());
    }
    t
}

fn rows(applet: &IpApplet) -> Vec<(String, String)> {
    info_page(applet).rows.into_iter().map(|r| (r.label, r.value)).collect()
}

fn pair(a: &str, b: &str) -> (String, String) {
    (a.to_string(), b.to_string())
}

#[test]
fn fixed_texts() {
    assert_eq!(PUBLIC_IP_LABEL, "Public IP");
    assert_eq!(NO_INTERFACES, "No active interfaces");
}

#[test]
fn decimal_text_of_some_numbers() {
    assert_eq!(decimal_text(0), "0");
    assert_eq!(decimal_text(5), "5");
    assert_eq!(decimal_text(10), "10");
    assert_eq!(decimal_text(60), "60");
    assert_eq!(decimal_text(1009), "1009");
    assert_eq!(decimal_text(1234567890), "1234567890");
    assert_eq!(decimal_text(u64::MAX), "18446744073709551615");
}

#[test]
fn marked_labels() {
    assert_eq!(marked_label(true, "ifconfig.io"), "* ifconfig.io");
    assert_eq!(marked_label(false, "ifconfig.io"), "  ifconfig.io");
    assert_eq!(marked_label(true, ""), "* ");
}

#[test]
fn info_page_at_start_shows_the_public_address_only() {
    let (applet, _) = IpApplet::init();
    let page = info_page(&applet);
    assert_eq!(page.rows.len(), 1);
    assert_eq!(page.rows[0].label, "Public IP");
    assert_eq!(page.rows[0].value, "Fetching...");
    assert_eq!(page.notice, None);
}

#[test]
fn info_page_without_rows_shows_the_notice() {
    let (mut applet, _) = IpApplet::init();
    applet.update(Message::TogglePublicIp(false));
    let page = info_page(&applet);
    assert!(page.rows.is_empty());
    assert_eq!(page.notice, Some("No active interfaces".to_string()));
}

#[test]
fn info_page_lists_enabled_interfaces_in_known_order() {
    let (mut applet, _) = IpApplet::init();
    applet.update(Message::NetworkIpsUpdated(observed(&[("wlan0", "10.0.0.3")])));
    applet.update(Message::NetworkIpsUpdated(observed(&[
        ("eth0", "10.0.0.2"),
        ("wlan0", "10.0.0.3"),
        ("docker0", "172.17.0.1"),
    ])));
    applet.update(Message::PublicIpUpdated("203.0.113.5".to_string()));
    assert_eq!(
        rows(&applet),
        vec![
            pair("wlan0", "10.0.0.3"),
            pair("docker0", "172.17.0.1"),
            pair("eth0", "10.0.0.2"),
            pair("Public IP", "203.0.113.5"),
        ]
    );
    applet.update(Message::ToggleInterface("docker0".to_string()));
    applet.update(Message::TogglePublicIp(false));
    assert_eq!(rows(&applet), vec![pair("wlan0", "10.0.0.3"), pair("eth0", "10.0.0.2")]);
    assert_eq!(info_page(&applet).notice, None);
}

#[test]
fn info_page_hides_every_disabled_interface() {
    let (mut applet, _) = IpApplet::init();
    applet.update(Message::NetworkIpsUpdated(observed(&[("eth0", "10.0.0.2")])));
    applet.update(Message::ToggleInterface("eth0".to_string()));
    applet.update(Message::TogglePublicIp(false));
    let page = info_page(&applet);
    assert!(page.rows.is_empty());
    assert_eq!(page.notice, Some("No active interfaces".to_string()));
}

#[test]
fn tab_bar_marks_the_open_page() {
    let (mut applet, _) = IpApplet::init();
    let bar = tab_bar(&applet);
    assert_eq!(bar.len(), 2);
    assert_eq!(bar[0].tab, SettingsTab::Info);
    assert_eq!(bar[0].label, "* IP addresses");
    assert!(bar[0].selected);
    assert_eq!(bar[1].tab, SettingsTab::Settings);
    assert_eq!(bar[1].label, "  Settings");
    assert!(!bar[1].selected);
    applet.update(Message::SetActiveTab(SettingsTab::Settings));
    let bar = tab_bar(&applet);
    assert_eq!(bar[0].label, "  IP addresses");
    assert!(!bar[0].selected);
    assert_eq!(bar[1].label, "* Settings");
    assert!(bar[1].selected);
}

#[test]
fn interface_switches_follow_the_known_list() {
    let (mut applet, _) = IpApplet::init();
    assert!(interface_switches(&applet).is_empty());
    let both = observed(&[("eth0", "10.0.0.2"), ("wlan0", "10.0.0.3")]);
    applet.update(Message::NetworkIpsUpdated(both));
    applet.update(Message::ToggleInterface("wlan0".to_string()));
    let switches = interface_switches(&applet);
    assert_eq!(switches.len(), 2);
    assert_eq!(switches[0].name, "eth0");
    assert!(switches[0].on);
    assert_eq!(switches[1].name, "wlan0");
    assert!(!switches[1].on);
}

#[test]
fn service_choices_mark_the_chosen_service() {
    let (mut applet, _) = IpApplet::init();
    let labels: Vec<String> = service_choices(&applet).into_iter().map(|c| c.label).collect();
    assert_eq!(
        labels,
        vec!["* ifconfig.io", "  ipify.org", "  api4.ipify.org", "  icanhazmyip.com"]
    );
    applet.update(Message::SetPublicIpService(PublicIpService::ApiIpifyOrg));
    let choices = service_choices(&applet);
    let labels: Vec<&str> = choices.iter().map(|c| c.label.as_str()).collect();
    assert_eq!(
        labels,
        vec!["  ifconfig.io", "  ipify.org", "* api4.ipify.org", "  icanhazmyip.com"]
    );
    let selected: Vec<bool> = choices.iter().map(|c| c.selected).collect();
    assert_eq!(selected, vec![false, false, true, false]);
    let services: Vec<PublicIpService> = choices.iter().map(|c| c.service).collect();
    assert_eq!(services, PublicIpService::all());
}

#[test]
fn service_choices_are_hidden_with_the_public_address() {
    let (mut applet, _) = IpApplet::init();
    applet.update(Message::TogglePublicIp(false));
    assert!(service_choices(&applet).is_empty());
}

#[test]
fn rate_choices_are_labelled_in_seconds() {
    let (mut applet, _) = IpApplet::init();
    let choices = rate_choices(&applet);
    let labels: Vec<&str> = choices.iter().map(|c| c.label.as_str()).collect();
    assert_eq!(labels, vec!["5s", "10s", "15s", "30s", "60s"]);
    let secs: Vec<u64> = choices.iter().map(|c| c.secs).collect();
    assert_eq!(secs, vec![5, 10, 15, 30, 60]);
    let selected: Vec<bool> = choices.iter().map(|c| c.selected).collect();
    assert_eq!(selected, vec![false, true, false, false, false]);
    applet.update(Message::SetRefreshRate(60));
    let selected: Vec<bool> = rate_choices(&applet).iter().map(|c| c.selected).collect();
    assert_eq!(selected, vec![false, false, false, false, true]);
    applet.update(Message::SetRefreshRate(7));
    assert!(rate_choices(&applet).iter().all(|c| !c.selected));
}

#[test]
fn color_choices_mark_the_chosen_color() {
    let (mut applet, _) = IpApplet::init();
    let labels: Vec<String> = color_choices(&applet).into_iter().map(|c| c.label).collect();
    assert_eq!(
        labels,
        vec!["* Standard (tema)", "  Vit", "  Grön", "  Cyan", "  Gul", "  Orange", "  Röd"]
    );
    applet.update(Message::SetTextColor(TextColor::Red));
    let choices = color_choices(&applet);
    assert_eq!(choices[0].label, "  Standard (tema)");
    assert_eq!(choices[6].label, "* Röd");
    assert!(choices[6].selected);
    assert_eq!(choices.iter().filter(|c| c.selected).count(), 1);
    let colors: Vec<TextColor> = choices.iter().map(|c| c.color).collect();
    assert_eq!(colors, TextColor::all());
}
