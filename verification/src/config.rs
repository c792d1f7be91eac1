//! User preferences: what to show, which lookup service to ask, how often
//! to refresh, and which colour to draw the addresses in.

use vstd::prelude::*;
use crate::names::NameSet;

verus! {

/// A service that answers a plain GET with the caller's public address.
#[derive(Debug, Clone, Copy, PartialEq, Eq, Structural)]
pub enum PublicIpService {
    Ifconfig,
    IpifyOrg,
    ApiIpifyOrg,
    IcanhazmyipCom,
}

impl PublicIpService {
    /// The endpoint of each service.
    pub open spec fn spec_url(self) -> Seq<char> {
        match self {
            PublicIpService::Ifconfig => "https://ifconfig.io/ip"@,
            PublicIpService::IpifyOrg => "https://api.ipify.org"@,
            PublicIpService::ApiIpifyOrg => "https://api4.ipify.org"@,
            PublicIpService::IcanhazmyipCom => "https://icanhazmyip.com/ip"@,
        }
    }

    /// The name that each service is offered under.
    pub open spec fn spec_label(self) -> Seq<char> {
        match self {
            PublicIpService::Ifconfig => "ifconfig.io"@,
            PublicIpService::IpifyOrg => "ipify.org"@,
            PublicIpService::ApiIpifyOrg => "api4.ipify.org"@,
            PublicIpService::IcanhazmyipCom => "icanhazmyip.com"@,
        }
    }

    /// The services in the order in which they are offered.
    pub open spec fn spec_all() -> Seq<PublicIpService> {
        seq![
            PublicIpService::Ifconfig,
            PublicIpService::IpifyOrg,
            PublicIpService::ApiIpifyOrg,
            PublicIpService::IcanhazmyipCom,
        ]
    }

    /// The address that the GET is sent to.
    pub fn url(&self) -> (r: &'static str)
        ensures
            r@ == self.spec_url(),
    {
        match self {
            PublicIpService::Ifconfig => "https://ifconfig.io/ip",
            PublicIpService::IpifyOrg => "https://api.ipify.org",
            PublicIpService::ApiIpifyOrg => "https://api4.ipify.org",
            PublicIpService::IcanhazmyipCom => "https://icanhazmyip.com/ip",
        }
    }

    /// The name shown for the service.
    pub fn label(&self) -> (r: &'static str)
        ensures
            r@ == self.spec_label(),
    {
        match self {
            PublicIpService::Ifconfig => "ifconfig.io",
            PublicIpService::IpifyOrg => "ipify.org",
            PublicIpService::ApiIpifyOrg => "api4.ipify.org",
            PublicIpService::IcanhazmyipCom => "icanhazmyip.com",
        }
    }

    /// Every service, once, in the order in which they are offered.
    pub fn all() -> (r: Vec<PublicIpService>)
        ensures
            r@ == Self::spec_all(),
    {
        vec![
            PublicIpService::Ifconfig,
            PublicIpService::IpifyOrg,
            PublicIpService::ApiIpifyOrg,
            PublicIpService::IcanhazmyipCom,
        ]
    }
}

/// A colour, each channel in hundredths of its full intensity.
#[derive(Debug, Clone, Copy, PartialEq, Eq, Structural)]
pub struct Shade {
    pub red: u8,
    pub green: u8,
    pub blue: u8,
}

/// The colour that the addresses are drawn in.
#[derive(Debug, Clone, Copy, PartialEq, Eq, Structural)]
pub enum TextColor {
    Default,
    White,
    Green,
    Cyan,
    Yellow,
    Orange,
    Red,
}

impl TextColor {
    /// The name that each colour is offered under.
    pub open spec fn spec_label(self) -> Seq<char> {
        match self {
            TextColor::Default => "Standard (tema)"@,
            TextColor::White => "Vit"@,
            TextColor::Green => "Grön"@,
            TextColor::Cyan => "Cyan"@,
            TextColor::Yellow => "Gul"@,
            TextColor::Orange => "Orange"@,
            TextColor::Red => "Röd"@,
        }
    }

    /// The colours in the order in which they are offered.
    pub open spec fn spec_all() -> Seq<TextColor> {
        seq![
            TextColor::Default,
            TextColor::White,
            TextColor::Green,
            TextColor::Cyan,
            TextColor::Yellow,
            TextColor::Orange,
            TextColor::Red,
        ]
    }

    /// The shade of each colour; `Default` has none of its own and leaves
    /// the choice to the theme.
    pub open spec fn spec_shade(self) -> Option<Shade> {
        match self {
            TextColor::Default => None,
            TextColor::White => Some(Shade { red: 100, green: 100, blue: 100 }),
            TextColor::Green => Some(Shade { red: 0, green: 85, blue: 30 }),
            TextColor::Cyan => Some(Shade { red: 0, green: 85, blue: 85 }),
            TextColor::Yellow => Some(Shade { red: 100, green: 85, blue: 0 }),
            TextColor::Orange => Some(Shade { red: 100, green: 55, blue: 0 }),
            TextColor::Red => Some(Shade { red: 90, green: 20, blue: 20 }),
        }
    }

    /// The name shown for the colour.
    pub fn label(&self) -> (r: &'static str)
        ensures
            r@ == self.spec_label(),
    {
        match self {
            TextColor::Default => "Standard (tema)",
            TextColor::White => "Vit",
            TextColor::Green => "Grön",
            TextColor::Cyan => "Cyan",
            TextColor::Yellow => "Gul",
            TextColor::Orange => "Orange",
            TextColor::Red => "Röd",
        }
    }

    /// Every colour, once, in the order in which they are offered.
    pub fn all() -> (r: Vec<TextColor>)
        ensures
            r@ == Self::spec_all(),
    {
        vec![
            TextColor::Default,
            TextColor::White,
            TextColor::Green,
            TextColor::Cyan,
            TextColor::Yellow,
            TextColor::Orange,
            TextColor::Red,
        ]
    }

    /// The shade to draw in, or `None` where the theme decides. No channel
    /// exceeds 100.
    pub fn shade(&self) -> (r: Option<Shade>)
        ensures
            r == self.spec_shade(),
            r matches Some(s) ==> s.red <= 100 && s.green <= 100 && s.blue <= 100,
    {
        match self {
            TextColor::Default => None,
            TextColor::White => Some(Shade { red: 100, green: 100, blue: 100 }),
            TextColor::Green => Some(Shade { red: 0, green: 85, blue: 30 }),
            TextColor::Cyan => Some(Shade { red: 0, green: 85, blue: 85 }),
            TextColor::Yellow => Some(Shade { red: 100, green: 85, blue: 0 }),
            TextColor::Orange => Some(Shade { red: 100, green: 55, blue: 0 }),
            TextColor::Red => Some(Shade { red: 90, green: 20, blue: 20 }),
        }
    }
}

/// The refresh intervals that are offered, in seconds.
pub open spec fn spec_refresh_rates() -> Seq<u64> {
    seq![5u64, 10u64, 15u64, 30u64, 60u64]
}

/// The refresh intervals that are offered, in seconds, in the order in
/// which they are offered.
pub fn refresh_rates() -> (r: Vec<u64>)
    ensures
        r@ == spec_refresh_rates(),
{
    vec![5u64, 10u64, 15u64, 30u64, 60u64]
}

/// What the user has chosen. The enabled interfaces are a preference, not a
/// record of what is up: a name may stay in the set while its interface is
/// away.
#[derive(Debug, Clone)]
pub struct Config {
    pub enabled_interfaces: NameSet,
    pub show_public_ip: bool,
    pub public_ip_service: PublicIpService,
    pub refresh_rate_secs: u64,
    pub text_color: TextColor,
}

impl Config {
    /// The names that are enabled before anything was observed.
    pub open spec fn initial_interfaces() -> Set<Seq<char>> {
        set!["eth0"@, "wlan0"@, "tun0"@]
    }
}

impl Default for Config {
    /// The preferences of a first start.
    fn default() -> (r: Self)
        ensures
            r.enabled_interfaces@ == Config::initial_interfaces(),
            r.show_public_ip,
            r.public_ip_service == PublicIpService::Ifconfig,
            r.refresh_rate_secs == 10,
            r.text_color == TextColor::Default,
    {
        let mut enabled = NameSet::new();
        enabled.insert("eth0".to_owned());
        enabled.insert("wlan0".to_owned());
        enabled.insert("tun0".to_owned());
        Config {
            enabled_interfaces: enabled,
            show_public_ip: true,
            public_ip_service: PublicIpService::Ifconfig,
            refresh_rate_secs: 10,
            text_color: TextColor::Default,
        }
    }
}

} // verus!
