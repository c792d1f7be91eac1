//! The applet's state, the events that change it, and what each event asks
//! the outside to do.
//!
//! The applet itself never waits: `update` takes one event, changes the
//! state and names the work to start. Whoever runs the applet starts that
//! work and hands each result back as a further event.

use vstd::prelude::*;
use crate::addresses::AddressTable;
use crate::config::{Config, PublicIpService, TextColor};
use crate::names::NameSet;
use crate::public_ip::FETCHING;
use crate::reconcile::{arrivals, lemma_reconciled_idempotent, reconcile, reconciled};
use crate::text::{ascending_list, texts};

verus! {

/// The two pages of the popup.
#[derive(Debug, Clone, Copy, PartialEq, Eq, Structural)]
pub enum SettingsTab {
    Info,
    Settings,
}

/// An event: a result that came back, the timer, or something the user did.
#[derive(Debug, Clone)]
pub enum Message {
    /// The interfaces were listed; these are the addresses to show.
    NetworkIpsUpdated(AddressTable),
    /// A lookup of the public address ended; this is the text to show.
    PublicIpUpdated(String),
    /// The refresh timer fired.
    Tick,
    /// The user switched an interface on or off.
    ToggleInterface(String),
    /// The user chose whether the public address is shown.
    TogglePublicIp(bool),
    /// The user chose a colour.
    SetTextColor(TextColor),
    /// The user chose a lookup service.
    SetPublicIpService(PublicIpService),
    /// The user chose a refresh interval, in seconds.
    SetRefreshRate(u64),
    /// The user turned to a page of the popup.
    SetActiveTab(SettingsTab),
}

/// The work that an event asks for.
#[derive(Debug, Clone)]
pub enum Command {
    /// Nothing.
    Idle,
    /// Look the public address up once, at this URL.
    FetchPublicIp(String),
    /// List the interfaces once, and look the public address up once, at
    /// this URL.
    Refresh(String),
}

/// A command, with its URL as a sequence of characters.
pub enum CommandView {
    Idle,
    FetchPublicIp(Seq<char>),
    Refresh(Seq<char>),
}

impl View for Command {
    type V = CommandView;

    open spec fn view(&self) -> CommandView {
        match self {
            Command::Idle => CommandView::Idle,
            Command::FetchPublicIp(url) => CommandView::FetchPublicIp(url@),
            Command::Refresh(url) => CommandView::Refresh(url@),
        }
    }
}

/// The applet's state as plain mathematics.
#[verifier::ext_equal]
pub struct AppletView {
    /// The address of each interface that the last listing found.
    pub addresses: Map<Seq<char>, Seq<char>>,
    /// The interfaces in the order in which they are shown.
    pub known: Seq<Seq<char>>,
    /// The text shown for the public address.
    pub public_ip: Seq<char>,
    /// The interfaces that the user wants to see.
    pub enabled: Set<Seq<char>>,
    pub show_public_ip: bool,
    pub service: PublicIpService,
    pub refresh_rate_secs: u64,
    pub text_color: TextColor,
    pub active_tab: SettingsTab,
}

/// The state before any event.
pub open spec fn initial() -> AppletView {
    AppletView {
        addresses: Map::empty(),
        known: Seq::empty(),
        public_ip: FETCHING@,
        enabled: Config::initial_interfaces(),
        show_public_ip: true,
        service: PublicIpService::Ifconfig,
        refresh_rate_secs: 10,
        text_color: TextColor::Default,
        active_tab: SettingsTab::Info,
    }
}

/// The state after an event.
///
/// A listing replaces the addresses as a whole, brings the known interfaces
/// in step with it, and switches on each interface seen for the first time.
/// Every other event changes the one thing it names.
pub open spec fn step(pre: AppletView, msg: Message) -> AppletView {
    match msg {
        Message::NetworkIpsUpdated(table) => {
            let seen = ascending_list(table@.dom());
            AppletView {
                addresses: table@,
                known: reconciled(pre.known, seen),
                enabled: pre.enabled.union(arrivals(pre.known, seen).to_set()),
                ..pre
            }
        },
        Message::PublicIpUpdated(ip) => AppletView { public_ip: ip@, ..pre },
        Message::Tick => pre,
        Message::ToggleInterface(name) => AppletView {
            enabled: if pre.enabled.contains(name@) {
                pre.enabled.remove(name@)
            } else {
                pre.enabled.insert(name@)
            },
            ..pre
        },
        Message::TogglePublicIp(show) => AppletView { show_public_ip: show, ..pre },
        Message::SetTextColor(color) => AppletView { text_color: color, ..pre },
        Message::SetPublicIpService(service) => AppletView { service, ..pre },
        Message::SetRefreshRate(secs) => AppletView { refresh_rate_secs: secs, ..pre },
        Message::SetActiveTab(tab) => AppletView { active_tab: tab, ..pre },
    }
}

/// The work that an event asks for: the timer asks for a refresh at the
/// chosen service, the choice of a service for one lookup at that service,
/// and nothing else asks for anything.
pub open spec fn command_for(pre: AppletView, msg: Message) -> CommandView {
    match msg {
        Message::Tick => CommandView::Refresh(pre.service.spec_url()),
        Message::SetPublicIpService(service) => CommandView::FetchPublicIp(service.spec_url()),
        _ => CommandView::Idle,
    }
}

/// Choosing a service asks for exactly one lookup, at the URL of the service
/// just chosen, whatever the state; and the choice is kept.
pub proof fn lemma_service_switch_refetches(pre: AppletView, service: PublicIpService)
    ensures
        command_for(pre, Message::SetPublicIpService(service)) == CommandView::FetchPublicIp(
            service.spec_url(),
        ),
        step(pre, Message::SetPublicIpService(service)).service == service,
{
}

/// A listing that comes a second time with the same addresses changes
/// nothing: no interface moves and none is switched on.
pub proof fn lemma_repeated_listing_changes_nothing(pre: AppletView, table: AddressTable)
    ensures
        step(step(pre, Message::NetworkIpsUpdated(table)), Message::NetworkIpsUpdated(table))
            == step(pre, Message::NetworkIpsUpdated(table)),
{
    let seen = ascending_list(table@.dom());
    let once = step(pre, Message::NetworkIpsUpdated(table));
    let twice = step(once, Message::NetworkIpsUpdated(table));
    lemma_reconciled_idempotent(pre.known, seen);
    assert(twice.enabled =~= once.enabled);
}

/// The applet: what was last observed, and what the user has chosen.
#[derive(Debug)]
pub struct IpApplet {
    network_ips: AddressTable,
    known_interfaces: Vec<String>,
    public_ip: String,
    config: Config,
    active_tab: SettingsTab,
}

impl View for IpApplet {
    type V = AppletView;

    closed spec fn view(&self) -> AppletView {
        AppletView {
            addresses: self.network_ips@,
            known: texts(self.known_interfaces@),
            public_ip: self.public_ip@,
            enabled: self.config.enabled_interfaces@,
            show_public_ip: self.config.show_public_ip,
            service: self.config.public_ip_service,
            refresh_rate_secs: self.config.refresh_rate_secs,
            text_color: self.config.text_color,
            active_tab: self.active_tab,
        }
    }
}

impl IpApplet {
    #[verifier::type_invariant]
    spec fn known_once(self) -> bool {
        texts(self.known_interfaces@).no_duplicates()
    }

    /// The applet at its start, and the first work to do: a refresh at the
    /// default service.
    pub fn init() -> (r: (Self, Command))
        ensures
            r.0@ == initial(),
            r.1@ == CommandView::Refresh(initial().service.spec_url()),
    {
        let config = Config::default();
        let url = config.public_ip_service.url().to_owned();
        let applet = IpApplet {
            network_ips: AddressTable::new(),
            known_interfaces: Vec::new(),
            public_ip: FETCHING.to_owned(),
            config,
            active_tab: SettingsTab::Info,
        };
        (applet, Command::Refresh(url))
    }

    /// The address of each interface that the last listing found.
    pub fn network_ips(&self) -> (r: &AddressTable)
        ensures
            r@ == self@.addresses,
    {
        &self.network_ips
    }

    /// The interfaces in the order in which they are shown. No name occurs
    /// twice.
    pub fn known_interfaces(&self) -> (r: &Vec<String>)
        ensures
            texts(r@) == self@.known,
            texts(r@).no_duplicates(),
    {
        proof {
            use_type_invariant(self);
        }
        &self.known_interfaces
    }

    /// The text shown for the public address.
    pub fn public_ip(&self) -> (r: &str)
        ensures
            r@ == self@.public_ip,
    {
        self.public_ip.as_str()
    }

    /// What the user has chosen.
    pub fn config(&self) -> (r: &Config)
        ensures
            r.enabled_interfaces@ == self@.enabled,
            r.show_public_ip == self@.show_public_ip,
            r.public_ip_service == self@.service,
            r.refresh_rate_secs == self@.refresh_rate_secs,
            r.text_color == self@.text_color,
    {
        &self.config
    }

    /// The page of the popup that is open.
    pub fn active_tab(&self) -> (r: SettingsTab)
        ensures
            r == self@.active_tab,
    {
        self.active_tab
    }

    /// Takes one event: changes the state as `step` says and returns the
    /// work that `command_for` names.
    pub fn update(&mut self, msg: Message) -> (cmd: Command)
        ensures
            final(self)@ == step(old(self)@, msg),
            cmd@ == command_for(old(self)@, msg),
    {
        proof {
            use_type_invariant(&*self);
        }
        match msg {
            Message::NetworkIpsUpdated(ips) => {
                let mut enabled = NameSet::new();
                std::mem::swap(&mut enabled, &mut self.config.enabled_interfaces);
                let next = reconcile(&self.known_interfaces, &mut enabled, &ips);
                self.config.enabled_interfaces = enabled;
                self.known_interfaces = next;
                self.network_ips = ips;
                Command::Idle
            },
            Message::PublicIpUpdated(ip) => {
                self.public_ip = ip;
                Command::Idle
            },
            Message::Tick => Command::Refresh(self.config.public_ip_service.url().to_owned()),
            Message::ToggleInterface(name) => {
                let mut enabled = NameSet::new();
                std::mem::swap(&mut enabled, &mut self.config.enabled_interfaces);
                if enabled.contains(name.as_str()) {
                    enabled.remove(name.as_str());
                } else {
                    enabled.insert(name);
                }
                self.config.enabled_interfaces = enabled;
                Command::Idle
            },
            Message::TogglePublicIp(show) => {
                self.config.show_public_ip = show;
                Command::Idle
            },
            Message::SetTextColor(color) => {
                self.config.text_color = color;
                Command::Idle
            },
            Message::SetPublicIpService(service) => {
                self.config.public_ip_service = service;
                Command::FetchPublicIp(service.url().to_owned())
            },
            Message::SetRefreshRate(secs) => {
                self.config.refresh_rate_secs = secs;
                Command::Idle
            },
            Message::SetActiveTab(tab) => {
                self.active_tab = tab;
                Command::Idle
            },
        }
    }
}

} // verus!
