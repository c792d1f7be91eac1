//! What the popup shows, as plain values: the rows, switches and choices of
//! its two pages, ready to be drawn.

use vstd::prelude::*;
use vstd::string::StringExecFns;
use crate::applet::{AppletView, IpApplet, SettingsTab};
use crate::config::{refresh_rates, spec_refresh_rates, PublicIpService, TextColor};
use crate::text::texts;

verus! {

/// The label of the row that shows the public address.
pub const PUBLIC_IP_LABEL: &'static str = "Public IP";

/// Shown on the info page when it has no row.
pub const NO_INTERFACES: &'static str = "No active interfaces";

/// The character for a digit.
pub open spec fn digit(d: nat) -> char {
    if d == 0 {
        '0'
    } else if d == 1 {
        '1'
    } else if d == 2 {
        '2'
    } else if d == 3 {
        '3'
    } else if d == 4 {
        '4'
    } else if d == 5 {
        '5'
    } else if d == 6 {
        '6'
    } else if d == 7 {
        '7'
    } else if d == 8 {
        '8'
    } else {
        '9'
    }
}

/// A number written in decimal, without leading zeros.
pub open spec fn decimal(n: nat) -> Seq<char>
    decreases n,
{
    if n < 10 {
        seq![digit(n)]
    } else {
        decimal(n / 10).push(digit(n % 10))
    }
}

/// A label with the mark of a choice in front: a star where it is the one
/// selected, blanks where it is not.
pub open spec fn marked(selected: bool, label: Seq<char>) -> Seq<char> {
    if selected {
        "* "@ + label
    } else {
        "  "@ + label
    }
}

/// The label of a refresh interval.
pub open spec fn rate_label(secs: u64) -> Seq<char> {
    decimal(secs as nat) + "s"@
}

fn digit_text(d: u64) -> (r: &'static str)
    requires
        d < 10,
    ensures
        r@ == seq![digit(d as nat)],
{
    proof {
        reveal_strlit("0");
        reveal_strlit("1");
        reveal_strlit("2");
        reveal_strlit("3");
        reveal_strlit("4");
        reveal_strlit("5");
        reveal_strlit("6");
        reveal_strlit("7");
        reveal_strlit("8");
        reveal_strlit("9");
    }
    if d == 0 {
        "0"
    } else if d == 1 {
        "1"
    } else if d == 2 {
        "2"
    } else if d == 3 {
        "3"
    } else if d == 4 {
        "4"
    } else if d == 5 {
        "5"
    } else if d == 6 {
        "6"
    } else if d == 7 {
        "7"
    } else if d == 8 {
        "8"
    } else {
        "9"
    }
}

/// `n` written in decimal.
pub fn decimal_text(n: u64) -> (r: String)
    ensures
        r@ == decimal(n as nat),
{
    let mut text = digit_text(n % 10).to_owned();
    let mut rest = n / 10;
    while rest > 0
        invariant
            decimal(n as nat) == if rest > 0 {
                decimal(rest as nat) + text@
            } else {
                text@
            },
        decreases rest,
    {
        let front = digit_text(rest % 10).to_owned();
        text = front.concat(text.as_str());
        rest = rest / 10;
    }
    text
}

/// `label` with the mark of a choice in front.
pub fn marked_label(selected: bool, label: &str) -> (r: String)
    ensures
        r@ == marked(selected, label@),
{
    let mark = if selected {
        "* "
    } else {
        "  "
    };
    mark.to_owned().concat(label)
}

/// One row of the info page: a label and, under it, an address that can be
/// copied.
#[derive(Debug, Clone)]
pub struct InfoRow {
    pub label: String,
    pub value: String,
}

/// The info page: its rows from top to bottom, and the notice that stands in
/// their place when there is none.
#[derive(Debug, Clone)]
pub struct InfoPage {
    pub rows: Vec<InfoRow>,
    pub notice: Option<String>,
}

/// The rows as pairs of label and value.
pub open spec fn row_texts(rows: Seq<InfoRow>) -> Seq<(Seq<char>, Seq<char>)> {
    Seq::new(rows.len(), |i: int| (rows[i].label@, rows[i].value@))
}

/// The test "is enabled and has an address".
pub open spec fn is_shown(v: AppletView) -> spec_fn(Seq<char>) -> bool {
    |n: Seq<char>| v.enabled.contains(n) && v.addresses.dom().contains(n)
}

/// The row of an interface: its name and its address.
pub open spec fn interface_row(v: AppletView) -> spec_fn(Seq<char>) -> (Seq<char>, Seq<char>) {
    |n: Seq<char>| (n, v.addresses[n])
}

/// The rows of the info page: one for each known interface that is enabled
/// and has an address, in the order of the known interfaces, and behind
/// them the public address where it is to be shown.
pub open spec fn info_rows(v: AppletView) -> Seq<(Seq<char>, Seq<char>)> {
    let rows = v.known.filter(is_shown(v)).map_values(interface_row(v));
    if v.show_public_ip {
        rows.push((PUBLIC_IP_LABEL@, v.public_ip))
    } else {
        rows
    }
}

/// The info page for the applet's state. The notice is there exactly when
/// there is no row.
pub fn info_page(applet: &IpApplet) -> (page: InfoPage)
    ensures
        row_texts(page.rows@) == info_rows(applet@),
        page.notice is Some <==> page.rows@.len() == 0,
        page.notice matches Some(text) ==> text@ == NO_INTERFACES@,
{
    let known = applet.known_interfaces();
    let config = applet.config();
    let table = applet.network_ips();
    let ghost v = applet@;
    let mut rows: Vec<InfoRow> = Vec::new();
    let mut i: usize = 0;
    proof {
        reveal(Seq::filter);
    }
    while i < known.len()
        invariant
            i <= known.len(),
            texts(known@) == v.known,
            config.enabled_interfaces@ == v.enabled,
            table@ == v.addresses,
            row_texts(rows@) == v.known.take(i as int).filter(is_shown(v)).map_values(
                interface_row(v),
            ),
        decreases known.len() - i,
    {
        let name = &known[i];
        let ghost head = v.known.take(i as int);
        proof {
            assert(v.known.take(i + 1) =~= head.push(name@));
            head.lemma_filter_push(name@, is_shown(v));
        }
        if config.enabled_interfaces.contains(name.as_str()) {
            match table.get(name.as_str()) {
                Some(address) => {
                    rows.push(InfoRow { label: name.clone(), value: address.clone() });
                    proof {
                        let kept = head.filter(is_shown(v));
                        assert(kept.push(name@).map_values(interface_row(v)) =~= kept.map_values(
                            interface_row(v),
                        ).push((name@, address@)));
                    }
                },
                None => {},
            }
        }
        i = i + 1;
    }
    assert(v.known.take(i as int) =~= v.known);
    if config.show_public_ip {
        let value = applet.public_ip().to_owned();
        rows.push(InfoRow { label: PUBLIC_IP_LABEL.to_owned(), value });
    }
    let notice = if rows.len() == 0 {
        Some(NO_INTERFACES.to_owned())
    } else {
        None
    };
    InfoPage { rows, notice }
}

/// A button of the tab bar.
#[derive(Debug, Clone)]
pub struct TabButton {
    pub tab: SettingsTab,
    pub label: String,
    pub selected: bool,
}

/// The title of each page.
pub open spec fn tab_title(tab: SettingsTab) -> Seq<char> {
    match tab {
        SettingsTab::Info => "IP addresses"@,
        SettingsTab::Settings => "Settings"@,
    }
}

fn tab_button(tab: SettingsTab, active: SettingsTab) -> (r: TabButton)
    ensures
        r.tab == tab,
        r.selected == (tab == active),
        r.label@ == marked(tab == active, tab_title(tab)),
{
    let title = match tab {
        SettingsTab::Info => "IP addresses",
        SettingsTab::Settings => "Settings",
    };
    let selected = tab == active;
    TabButton { tab, label: marked_label(selected, title), selected }
}

/// The tab bar: the info page first, then the settings; the open page is
/// the one selected and marked.
pub fn tab_bar(applet: &IpApplet) -> (r: Vec<TabButton>)
    ensures
        r@.len() == 2,
        r@[0].tab == SettingsTab::Info,
        r@[1].tab == SettingsTab::Settings,
        forall|i: int|
            0 <= i < 2 ==> {
                &&& (#[trigger] r@[i]).selected == (r@[i].tab == applet@.active_tab)
                &&& r@[i].label@ == marked(r@[i].selected, tab_title(r@[i].tab))
            },
{
    let active = applet.active_tab();
    let mut r: Vec<TabButton> = Vec::new();
    r.push(tab_button(SettingsTab::Info, active));
    r.push(tab_button(SettingsTab::Settings, active));
    r
}

/// The switch of one interface on the settings page.
#[derive(Debug, Clone)]
pub struct InterfaceSwitch {
    pub name: String,
    pub on: bool,
}

/// One lookup service to choose.
#[derive(Debug, Clone)]
pub struct ServiceChoice {
    pub service: PublicIpService,
    pub label: String,
    pub selected: bool,
}

/// One refresh interval to choose.
#[derive(Debug, Clone)]
pub struct RateChoice {
    pub secs: u64,
    pub label: String,
    pub selected: bool,
}

/// One colour to choose.
#[derive(Debug, Clone)]
pub struct ColorChoice {
    pub color: TextColor,
    pub label: String,
    pub selected: bool,
}

/// A switch for each known interface, in their order; it is on where the
/// interface is enabled.
pub fn interface_switches(applet: &IpApplet) -> (r: Vec<InterfaceSwitch>)
    ensures
        r@.len() == applet@.known.len(),
        forall|i: int|
            0 <= i < r@.len() ==> {
                &&& (#[trigger] r@[i]).name@ == applet@.known[i]
                &&& r@[i].on == applet@.enabled.contains(applet@.known[i])
            },
{
    let known = applet.known_interfaces();
    let config = applet.config();
    let mut r: Vec<InterfaceSwitch> = Vec::new();
    let mut i: usize = 0;
    while i < known.len()
        invariant
            i <= known.len(),
            texts(known@) == applet@.known,
            config.enabled_interfaces@ == applet@.enabled,
            r@.len() == i,
            forall|j: int|
                0 <= j < i ==> {
                    &&& (#[trigger] r@[j]).name@ == applet@.known[j]
                    &&& r@[j].on == applet@.enabled.contains(applet@.known[j])
                },
        decreases known.len() - i,
    {
        let name = known[i].clone();
        let on = config.enabled_interfaces.contains(name.as_str());
        r.push(InterfaceSwitch { name, on });
        i = i + 1;
    }
    r
}

/// The lookup services to choose from, each under its marked name: all of
/// them where the public address is shown, none where it is not.
pub fn service_choices(applet: &IpApplet) -> (r: Vec<ServiceChoice>)
    ensures
        r@.len() == if applet@.show_public_ip {
            PublicIpService::spec_all().len()
        } else {
            0
        },
        forall|i: int|
            0 <= i < r@.len() ==> {
                &&& (#[trigger] r@[i]).service == PublicIpService::spec_all()[i]
                &&& r@[i].selected == (r@[i].service == applet@.service)
                &&& r@[i].label@ == marked(r@[i].selected, r@[i].service.spec_label())
            },
{
    let config = applet.config();
    let mut r: Vec<ServiceChoice> = Vec::new();
    if config.show_public_ip {
        let all = PublicIpService::all();
        let mut i: usize = 0;
        while i < all.len()
            invariant
                i <= all.len(),
                all@ == PublicIpService::spec_all(),
                config.public_ip_service == applet@.service,
                r@.len() == i,
                forall|j: int|
                    0 <= j < i ==> {
                        &&& (#[trigger] r@[j]).service == PublicIpService::spec_all()[j]
                        &&& r@[j].selected == (r@[j].service == applet@.service)
                        &&& r@[j].label@ == marked(r@[j].selected, r@[j].service.spec_label())
                    },
            decreases all.len() - i,
        {
            let service = all[i];
            let selected = service == config.public_ip_service;
            let label = marked_label(selected, service.label());
            r.push(ServiceChoice { service, label, selected });
            i = i + 1;
        }
    }
    r
}

/// The refresh intervals to choose from, each labelled with its seconds.
pub fn rate_choices(applet: &IpApplet) -> (r: Vec<RateChoice>)
    ensures
        r@.len() == spec_refresh_rates().len(),
        forall|i: int|
            0 <= i < r@.len() ==> {
                &&& (#[trigger] r@[i]).secs == spec_refresh_rates()[i]
                &&& r@[i].selected == (r@[i].secs == applet@.refresh_rate_secs)
                &&& r@[i].label@ == rate_label(r@[i].secs)
            },
{
    let config = applet.config();
    let rates = refresh_rates();
    let mut r: Vec<RateChoice> = Vec::new();
    let mut i: usize = 0;
    while i < rates.len()
        invariant
            i <= rates.len(),
            rates@ == spec_refresh_rates(),
            config.refresh_rate_secs == applet@.refresh_rate_secs,
            r@.len() == i,
            forall|j: int|
                0 <= j < i ==> {
                    &&& (#[trigger] r@[j]).secs == spec_refresh_rates()[j]
                    &&& r@[j].selected == (r@[j].secs == applet@.refresh_rate_secs)
                    &&& r@[j].label@ == rate_label(r@[j].secs)
                },
        decreases rates.len() - i,
    {
        let secs = rates[i];
        let selected = secs == config.refresh_rate_secs;
        let label = decimal_text(secs).concat("s");
        r.push(RateChoice { secs, label, selected });
        i = i + 1;
    }
    r
}

/// The colours to choose from, each under its marked name.
pub fn color_choices(applet: &IpApplet) -> (r: Vec<ColorChoice>)
    ensures
        r@.len() == TextColor::spec_all().len(),
        forall|i: int|
            0 <= i < r@.len() ==> {
                &&& (#[trigger] r@[i]).color == TextColor::spec_all()[i]
                &&& r@[i].selected == (r@[i].color == applet@.text_color)
                &&& r@[i].label@ == marked(r@[i].selected, r@[i].color.spec_label())
            },
{
    let config = applet.config();
    let all = TextColor::all();
    let mut r: Vec<ColorChoice> = Vec::new();
    let mut i: usize = 0;
    while i < all.len()
        invariant
            i <= all.len(),
            all@ == TextColor::spec_all(),
            config.text_color == applet@.text_color,
            r@.len() == i,
            forall|j: int|
                0 <= j < i ==> {
                    &&& (#[trigger] r@[j]).color == TextColor::spec_all()[j]
                    &&& r@[j].selected == (r@[j].color == applet@.text_color)
                    &&& r@[j].label@ == marked(r@[j].selected, r@[j].color.spec_label())
                },
        decreases all.len() - i,
    {
        let color = all[i];
        let selected = color == config.text_color;
        let label = marked_label(selected, color.label());
        r.push(ColorChoice { color, label, selected });
        i = i + 1;
    }
    r
}

} // verus!
