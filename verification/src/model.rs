//! The network-state data model: interfaces, addresses, routes, and the
//! snapshot that holds them.

use vstd::prelude::*;

use crate::error::CoreError;
use crate::ip::IpAddr;
use crate::text::{owned, push_char, push_numeral, push_str, str_eq, trim_lower, ascii_lowered, trimmed, decimal};

verus! {

/// Version of the JSON wire format.
pub const SCHEMA_VERSION: u32 = 1;

/// An IP address family.
#[derive(Debug, Clone, Copy, PartialEq, Eq, Hash, PartialOrd, Ord, Structural)]
pub enum Family {
    /// IPv4.
    V4,
    /// IPv6.
    V6,
}

/// The family an address belongs to.
pub open spec fn family_of(ip: IpAddr) -> Family {
    match ip {
        IpAddr::V4(_) => Family::V4,
        IpAddr::V6(_) => Family::V6,
    }
}

impl Family {
    /// The family an address belongs to.
    pub fn of(ip: &IpAddr) -> (f: Family)
        ensures
            f == family_of(*ip),
    {
        match ip {
            IpAddr::V4(_) => Family::V4,
            IpAddr::V6(_) => Family::V6,
        }
    }

    /// The name of the family: `ipv4` or `ipv6`.
    pub open spec fn text(self) -> Seq<char> {
        match self {
            Family::V4 => "ipv4"@,
            Family::V6 => "ipv6"@,
        }
    }

    /// The name of the family, as printed.
    pub fn as_str(&self) -> (s: &'static str)
        ensures
            s@ == self.text(),
    {
        match self {
            Family::V4 => "ipv4",
            Family::V6 => "ipv6",
        }
    }
}

/// Which family the caller would like, when both are available.
#[derive(Debug, Clone, Copy, PartialEq, Eq, Structural)]
pub enum FamilyPreference {
    /// Prefer IPv4. The default: it is what most local development targets.
    Ipv4,
    /// Prefer IPv6.
    Ipv6,
    /// No preference; score both families on equal footing.
    Any,
}

impl Default for FamilyPreference {
    fn default() -> (p: Self)
        ensures
            p == FamilyPreference::Ipv4,
    {
        FamilyPreference::Ipv4
    }
}

/// The text a family preference is written as, after trimming and
/// lowercasing, and the preference it names.
pub open spec fn family_preference_named(k: Seq<char>) -> Option<FamilyPreference> {
    if k == "ipv4"@ || k == "v4"@ || k == "4"@ || k == "inet"@ {
        Some(FamilyPreference::Ipv4)
    } else if k == "ipv6"@ || k == "v6"@ || k == "6"@ || k == "inet6"@ {
        Some(FamilyPreference::Ipv6)
    } else if k == "any"@ || k == "both"@ {
        Some(FamilyPreference::Any)
    } else {
        None
    }
}

impl FamilyPreference {
    /// The concrete family this preference favours, if it names one.
    pub open spec fn spec_preferred(self) -> Option<Family> {
        match self {
            FamilyPreference::Ipv4 => Some(Family::V4),
            FamilyPreference::Ipv6 => Some(Family::V6),
            FamilyPreference::Any => None,
        }
    }

    /// Whether an address of `family` is admissible under this preference.
    pub open spec fn spec_admits(self, family: Family) -> bool {
        match self {
            FamilyPreference::Any => true,
            FamilyPreference::Ipv4 => family == Family::V4,
            FamilyPreference::Ipv6 => family == Family::V6,
        }
    }

    /// The concrete family this preference favours, if it names one.
    pub fn preferred(self) -> (f: Option<Family>)
        ensures
            f == self.spec_preferred(),
    {
        match self {
            FamilyPreference::Ipv4 => Some(Family::V4),
            FamilyPreference::Ipv6 => Some(Family::V6),
            FamilyPreference::Any => None,
        }
    }

    /// Whether an address of `family` is admissible under this preference.
    ///
    /// A preference still excludes the other family outright: asking for
    /// IPv4 and being handed an IPv6 address would break the caller's
    /// expectations far more than returning nothing does.
    pub fn admits(self, family: Family) -> (b: bool)
        ensures
            b == self.spec_admits(family),
    {
        match self {
            FamilyPreference::Any => true,
            FamilyPreference::Ipv4 => family == Family::V4,
            FamilyPreference::Ipv6 => family == Family::V6,
        }
    }

    /// Parse a preference: `ipv4`/`v4`/`4`/`inet`, `ipv6`/`v6`/`6`/`inet6`,
    /// or `any`/`both`, ignoring case and surrounding whitespace.
    pub fn parse(s: &str) -> (r: Result<FamilyPreference, CoreError>)
        ensures
            match family_preference_named(ascii_lowered(trimmed(s@))) {
                Some(p) => r == Ok::<FamilyPreference, CoreError>(p),
                None => r matches Err(CoreError::Parse { kind, value }) && kind@
                    == "FamilyPreference"@ && value@ == s@,
            },
    {
        let k = trim_lower(s);
        let k = k.as_str();
        if str_eq(k, "ipv4") || str_eq(k, "v4") || str_eq(k, "4") || str_eq(k, "inet") {
            Ok(FamilyPreference::Ipv4)
        } else if str_eq(k, "ipv6") || str_eq(k, "v6") || str_eq(k, "6") || str_eq(k, "inet6") {
            Ok(FamilyPreference::Ipv6)
        } else if str_eq(k, "any") || str_eq(k, "both") {
            Ok(FamilyPreference::Any)
        } else {
            Err(CoreError::Parse { kind: owned("FamilyPreference"), value: owned(s) })
        }
    }
}

impl std::str::FromStr for FamilyPreference {
    type Err = CoreError;

    fn from_str(s: &str) -> (r: Result<FamilyPreference, CoreError>)
        ensures
            match family_preference_named(ascii_lowered(trimmed(s@))) {
                Some(p) => r == Ok::<FamilyPreference, CoreError>(p),
                None => r matches Err(CoreError::Parse { kind, value }) && kind@
                    == "FamilyPreference"@ && value@ == s@,
            },
    {
        FamilyPreference::parse(s)
    }
}

/// Where an address sits in the IP address space.
#[derive(Debug, Clone, Copy, PartialEq, Eq, Hash, Structural)]
pub enum AddressScope {
    /// `127.0.0.0/8` or `::1` — reachable only from this machine.
    Loopback,
    /// `169.254.0.0/16` or `fe80::/10` — not routable, and useless in a URL.
    LinkLocal,
    /// RFC 1918 (`10/8`, `172.16/12`, `192.168/16`) — the normal LAN case.
    Private,
    /// RFC 6598 carrier-grade NAT (`100.64.0.0/10`).
    Cgnat,
    /// IPv6 unique local addresses (`fc00::/7`).
    UniqueLocal,
    /// Globally routable unicast.
    Global,
    /// Unspecified, multicast, broadcast, documentation or reserved.
    Special,
}

impl AddressScope {
    /// Whether another device on the LAN could plausibly use this address.
    pub open spec fn spec_reachable(self) -> bool {
        self is Private || self is UniqueLocal || self is Global || self is Cgnat
    }

    /// Whether an address of this scope could plausibly be handed to another
    /// device on the LAN as a destination.
    pub fn is_reachable_by_peers(self) -> (b: bool)
        ensures
            b == self.spec_reachable(),
    {
        matches!(
            self,
            AddressScope::Private | AddressScope::UniqueLocal | AddressScope::Global
                | AddressScope::Cgnat
        )
    }

    /// The scope's name as printed.
    pub open spec fn text(self) -> Seq<char> {
        match self {
            AddressScope::Loopback => "loopback"@,
            AddressScope::LinkLocal => "link-local"@,
            AddressScope::Private => "private"@,
            AddressScope::Cgnat => "cgnat"@,
            AddressScope::UniqueLocal => "unique-local"@,
            AddressScope::Global => "global"@,
            AddressScope::Special => "special"@,
        }
    }

    /// The scope's name as printed.
    pub fn as_str(&self) -> (s: &'static str)
        ensures
            s@ == self.text(),
    {
        match self {
            AddressScope::Loopback => "loopback",
            AddressScope::LinkLocal => "link-local",
            AddressScope::Private => "private",
            AddressScope::Cgnat => "cgnat",
            AddressScope::UniqueLocal => "unique-local",
            AddressScope::Global => "global",
            AddressScope::Special => "special",
        }
    }
}

/// What sort of device an interface is.
#[derive(Debug, PartialEq, Eq)]
pub enum InterfaceKind {
    /// A wired NIC.
    Ethernet,
    /// A Wi-Fi NIC.
    Wireless,
    /// The loopback device.
    Loopback,
    /// A user-created bridge (for example `br0` bridging a physical NIC).
    Bridge,
    /// A container runtime's bridge or virtual ethernet device.
    Container,
    /// A hypervisor or virtualisation device.
    Virtual,
    /// A tunnel or VPN device.
    Vpn,
    /// Anything else, carrying the source's own name for it.
    Other(String),
}

/// An [`InterfaceKind`] as a value, with `Other` carrying its characters.
pub enum KindView {
    Ethernet,
    Wireless,
    Loopback,
    Bridge,
    Container,
    Virtual,
    Vpn,
    Other(Seq<char>),
}

impl View for InterfaceKind {
    type V = KindView;

    open spec fn view(&self) -> KindView {
        match self {
            InterfaceKind::Ethernet => KindView::Ethernet,
            InterfaceKind::Wireless => KindView::Wireless,
            InterfaceKind::Loopback => KindView::Loopback,
            InterfaceKind::Bridge => KindView::Bridge,
            InterfaceKind::Container => KindView::Container,
            InterfaceKind::Virtual => KindView::Virtual,
            InterfaceKind::Vpn => KindView::Vpn,
            InterfaceKind::Other(s) => KindView::Other(s@),
        }
    }
}

impl KindView {
    /// The kind's name as printed; `Other` prints its own word.
    pub open spec fn text(self) -> Seq<char> {
        match self {
            KindView::Ethernet => "ethernet"@,
            KindView::Wireless => "wireless"@,
            KindView::Loopback => "loopback"@,
            KindView::Bridge => "bridge"@,
            KindView::Container => "container"@,
            KindView::Virtual => "virtual"@,
            KindView::Vpn => "vpn"@,
            KindView::Other(s) => s,
        }
    }
}

impl Clone for InterfaceKind {
    fn clone(&self) -> (r: Self)
        ensures
            r == *self,
    {
        match self {
            InterfaceKind::Ethernet => InterfaceKind::Ethernet,
            InterfaceKind::Wireless => InterfaceKind::Wireless,
            InterfaceKind::Loopback => InterfaceKind::Loopback,
            InterfaceKind::Bridge => InterfaceKind::Bridge,
            InterfaceKind::Container => InterfaceKind::Container,
            InterfaceKind::Virtual => InterfaceKind::Virtual,
            InterfaceKind::Vpn => InterfaceKind::Vpn,
            InterfaceKind::Other(s) => InterfaceKind::Other(s.clone()),
        }
    }
}

impl InterfaceKind {
    /// Whether this kind is a container or virtualisation device.
    pub open spec fn spec_synthetic(self) -> bool {
        self is Container || self is Virtual
    }

    /// Whether this kind represents a container or virtualisation device that
    /// should not normally be offered as "your machine's address".
    pub fn is_synthetic(&self) -> (b: bool)
        ensures
            b == self.spec_synthetic(),
    {
        matches!(self, InterfaceKind::Container | InterfaceKind::Virtual)
    }

    /// Whether this is the loopback kind.
    pub fn is_loopback(&self) -> (b: bool)
        ensures
            b == (*self is Loopback),
    {
        matches!(self, InterfaceKind::Loopback)
    }

    /// An `Other` kind carrying `word`.
    pub fn other(word: &str) -> (k: InterfaceKind)
        ensures
            k@ == KindView::Other(word@),
    {
        InterfaceKind::Other(owned(word))
    }

    /// The kind's name as printed.
    pub fn push_text(&self, out: &mut String)
        ensures
            final(out)@ == old(out)@ + self@.text(),
    {
        match self {
            InterfaceKind::Ethernet => push_str(out, "ethernet"),
            InterfaceKind::Wireless => push_str(out, "wireless"),
            InterfaceKind::Loopback => push_str(out, "loopback"),
            InterfaceKind::Bridge => push_str(out, "bridge"),
            InterfaceKind::Container => push_str(out, "container"),
            InterfaceKind::Virtual => push_str(out, "virtual"),
            InterfaceKind::Vpn => push_str(out, "vpn"),
            InterfaceKind::Other(s) => push_str(out, s.as_str()),
        }
    }

    /// The kind's name as printed.
    pub fn to_text(&self) -> (s: String)
        ensures
            s@ == self@.text(),
    {
        let mut out = String::new();
        self.push_text(&mut out);
        out
    }
}

/// The operational state of a link.
#[derive(Debug, Clone, Copy, PartialEq, Eq, Structural)]
pub enum InterfaceState {
    /// Administratively up and carrying a link.
    Up,
    /// Down, or up but with no carrier.
    Down,
    /// Up but not yet ready (for example, associating with an access point).
    Dormant,
    /// The driver does not report a meaningful state.
    Unknown,
}

impl InterfaceState {
    /// Whether the interface is definitively unusable: only `Down` is.
    pub fn is_down(self) -> (b: bool)
        ensures
            b == (self is Down),
    {
        matches!(self, InterfaceState::Down)
    }

    /// The state's name as printed.
    pub open spec fn text(self) -> Seq<char> {
        match self {
            InterfaceState::Up => "up"@,
            InterfaceState::Down => "down"@,
            InterfaceState::Dormant => "dormant"@,
            InterfaceState::Unknown => "unknown"@,
        }
    }

    /// The state's name as printed.
    pub fn as_str(&self) -> (s: &'static str)
        ensures
            s@ == self.text(),
    {
        match self {
            InterfaceState::Up => "up",
            InterfaceState::Down => "down",
            InterfaceState::Dormant => "dormant",
            InterfaceState::Unknown => "unknown",
        }
    }
}

/// Kernel link flags that matter to address selection.
#[derive(Debug, Clone, Copy, PartialEq, Eq, Structural)]
pub struct InterfaceFlags {
    /// `IFF_UP` — administratively enabled.
    pub up: bool,
    /// `IFF_RUNNING` — the driver reports the link as operational.
    pub running: bool,
    /// `IFF_LOOPBACK`.
    pub loopback: bool,
    /// `IFF_BROADCAST`.
    pub broadcast: bool,
    /// `IFF_POINTOPOINT` — typical of tunnels and PPP links.
    pub point_to_point: bool,
    /// `IFF_MULTICAST`.
    pub multicast: bool,
}

impl Default for InterfaceFlags {
    fn default() -> (f: Self)
        ensures
            !f.up && !f.running && !f.loopback && !f.broadcast && !f.point_to_point
                && !f.multicast,
    {
        InterfaceFlags {
            up: false,
            running: false,
            loopback: false,
            broadcast: false,
            point_to_point: false,
            multicast: false,
        }
    }
}

/// A single IP address bound to an interface.
#[derive(Debug, Clone, Copy, PartialEq, Eq, Structural)]
pub struct Address {
    /// The address itself.
    pub ip: IpAddr,
    /// Which family it belongs to.
    pub family: Family,
    /// Netmask length in bits (`24` for a `/24`).
    pub prefix_len: u8,
    /// Where the address sits in the address space.
    pub scope: AddressScope,
    /// Whether this is an IPv6 privacy-extension temporary address.
    pub is_temporary: bool,
}

impl Address {
    /// Build an address, deriving its family and scope from the IP itself.
    pub fn new(ip: IpAddr, prefix_len: u8) -> (a: Address)
        ensures
            a.ip == ip,
            a.family == family_of(ip),
            a.prefix_len == prefix_len,
            a.scope == crate::classify::scope_of(ip),
            !a.is_temporary,
    {
        Address {
            family: Family::of(&ip),
            scope: crate::classify::classify_address(&ip),
            ip,
            prefix_len,
            is_temporary: false,
        }
    }

    /// `ip/prefix`, as printed.
    pub open spec fn text(self) -> Seq<char> {
        self.ip.text() + seq!['/'] + decimal(self.prefix_len as nat)
    }

    /// The address rendered as it would appear in a URL.
    pub fn url_host(&self) -> (s: String)
        ensures
            s@ == self.ip.url_text(),
    {
        self.ip.url_host()
    }

    /// Append `ip/prefix` to `out`.
    pub fn push_text(&self, out: &mut String)
        ensures
            final(out)@ == old(out)@ + self.text(),
    {
        let ghost start = out@;
        self.ip.push_text(out);
        push_char(out, '/');
        push_numeral(out, self.prefix_len as u64, 10);
        assert(out@ =~= start + self.text());
    }
}

/// A network interface and everything bound to it.
#[derive(Debug, Clone, PartialEq, Eq)]
pub struct Interface {
    /// The kernel's name for the device, for example `wlo1`.
    pub name: String,
    /// The kernel's interface index. Routes reference interfaces by this.
    pub index: u32,
    /// What sort of device this is.
    pub kind: InterfaceKind,
    /// Its operational state.
    pub state: InterfaceState,
    /// Kernel link flags.
    pub flags: InterfaceFlags,
    /// Hardware address, when the device has one.
    pub mac: Option<String>,
    /// Link MTU.
    pub mtu: Option<u32>,
    /// Every address bound to this interface.
    pub addresses: Vec<Address>,
}

impl Interface {
    /// A minimal interface: no flags, no hardware address, no addresses.
    pub fn new(name: String, index: u32, kind: InterfaceKind, state: InterfaceState) -> (i:
        Interface)
        ensures
            i.name == name,
            i.index == index,
            i.kind == kind,
            i.state == state,
            i.flags == (InterfaceFlags {
                up: false,
                running: false,
                loopback: false,
                broadcast: false,
                point_to_point: false,
                multicast: false,
            }),
            i.mac is None,
            i.mtu is None,
            i.addresses@ == Seq::<Address>::empty(),
    {
        Interface {
            name,
            index,
            kind,
            state,
            flags: InterfaceFlags::default(),
            mac: None,
            mtu: None,
            addresses: Vec::new(),
        }
    }

    /// Attach an address, builder-style.
    pub fn with_address(self, address: Address) -> (i: Interface)
        ensures
            i.name == self.name,
            i.index == self.index,
            i.kind == self.kind,
            i.state == self.state,
            i.flags == self.flags,
            i.mac == self.mac,
            i.mtu == self.mtu,
            i.addresses@ == self.addresses@.push(address),
    {
        let mut i = self;
        i.addresses.push(address);
        i
    }

    /// The addresses of a given family, in order.
    pub fn addresses_of(&self, family: Family) -> (v: Vec<Address>)
        ensures
            v@ == self.addresses@.filter(|a: Address| a.family == family),
    {
        let mut v: Vec<Address> = Vec::new();
        let mut i: usize = 0;
        while i < self.addresses.len()
            invariant
                i <= self.addresses.len(),
                v@ == self.addresses@.subrange(0, i as int).filter(|a: Address| a.family == family),
            decreases self.addresses.len() - i,
        {
            let a = self.addresses[i];
            proof {
                let pre = self.addresses@.subrange(0, i as int);
                assert(self.addresses@.subrange(0, i + 1).drop_last() =~= pre);
                reveal_with_fuel(Seq::filter, 1);
            }
            if a.family == family {
                v.push(a);
            }
            i = i + 1;
        }
        assert(self.addresses@.subrange(0, self.addresses.len() as int) =~= self.addresses@);
        v
    }
}

/// An IP network in CIDR form.
#[derive(Debug, Clone, Copy, PartialEq, Eq, Structural)]
pub struct IpNetwork {
    /// The network address.
    pub addr: IpAddr,
    /// The prefix length in bits.
    pub prefix_len: u8,
}

impl IpNetwork {
    /// Whether this network covers the whole address space of its family.
    pub open spec fn spec_is_default(self) -> bool {
        self.prefix_len == 0 && self.addr.spec_is_unspecified()
    }

    /// `addr/prefix`, as printed.
    pub open spec fn text(self) -> Seq<char> {
        self.addr.text() + seq!['/'] + decimal(self.prefix_len as nat)
    }

    /// Construct a network from an address and prefix length.
    pub fn new(addr: IpAddr, prefix_len: u8) -> (n: IpNetwork)
        ensures
            n.addr == addr,
            n.prefix_len == prefix_len,
    {
        IpNetwork { addr, prefix_len }
    }

    /// Whether this network covers the entire address space — that is,
    /// whether a route to it is a default route.
    pub fn is_default(&self) -> (b: bool)
        ensures
            b == self.spec_is_default(),
    {
        self.prefix_len == 0 && self.addr.is_unspecified()
    }

    /// Append `addr/prefix` to `out`.
    pub fn push_text(&self, out: &mut String)
        ensures
            final(out)@ == old(out)@ + self.text(),
    {
        let ghost start = out@;
        self.addr.push_text(out);
        push_char(out, '/');
        push_numeral(out, self.prefix_len as u64, 10);
        assert(out@ =~= start + self.text());
    }
}

/// A routing table entry.
#[derive(Debug, Clone, Copy, PartialEq, Eq, Structural)]
pub struct Route {
    /// The destination network. `None` means a default route.
    pub destination: Option<IpNetwork>,
    /// The next hop, when there is one.
    pub gateway: Option<IpAddr>,
    /// Index of the interface this route exits through.
    pub interface_index: u32,
    /// Route metric. Lower wins.
    pub metric: u32,
    /// Which family this route belongs to.
    pub family: Family,
    /// The preferred source address the kernel associates with this route.
    pub preferred_source: Option<IpAddr>,
}

impl Route {
    /// Whether this is a default route: no destination, or one covering
    /// everything.
    pub open spec fn spec_is_default(self) -> bool {
        match self.destination {
            None => true,
            Some(d) => d.spec_is_default(),
        }
    }

    /// Whether this is a default route.
    pub fn is_default(&self) -> (b: bool)
        ensures
            b == self.spec_is_default(),
    {
        match &self.destination {
            None => true,
            Some(d) => d.is_default(),
        }
    }
}

/// A complete snapshot of the machine's network configuration.
#[derive(Debug, Clone, PartialEq, Eq)]
pub struct NetworkState {
    /// Wire-format version. See [`SCHEMA_VERSION`].
    pub schema_version: u32,
    /// When the snapshot was taken, as seconds since the Unix epoch.
    pub captured_at: Option<u64>,
    /// Every interface on the machine.
    pub interfaces: Vec<Interface>,
    /// Every route AutoNet cares about.
    pub routes: Vec<Route>,
}

/// A default route for `family` through interface `index`.
pub open spec fn default_via(r: Route, index: u32, family: Family) -> bool {
    r.spec_is_default() && r.interface_index == index && r.family == family
}

/// The position of the first route among the first `n` that satisfies
/// `wanted` and has the smallest `key` among those that do.
pub open spec fn first_least(
    routes: Seq<Route>,
    n: int,
    wanted: spec_fn(Route) -> bool,
    key: spec_fn(Route) -> int,
) -> Option<int>
    decreases n,
{
    if n <= 0 {
        None
    } else {
        let earlier = first_least(routes, n - 1, wanted, key);
        let r = routes[n - 1];
        if wanted(r) && (earlier is None || key(r) < key(routes[earlier->0])) {
            Some(n - 1)
        } else {
            earlier
        }
    }
}

/// The routes `default_route_for` chooses among.
pub open spec fn default_for_family(family: Family) -> spec_fn(Route) -> bool {
    |r: Route| r.spec_is_default() && r.family == family
}

/// The routes `gateway_for` and `default_route_metric` choose among.
pub open spec fn default_via_fn(index: u32, family: Family) -> spec_fn(Route) -> bool {
    |r: Route| default_via(r, index, family)
}

/// The order `default_route_for` ranks routes by: metric, then interface.
pub open spec fn metric_then_index() -> spec_fn(Route) -> int {
    |r: Route| r.metric as int * 0x1_0000_0000 + r.interface_index as int
}

/// The order `gateway_for` and `default_route_metric` rank routes by.
pub open spec fn metric_only() -> spec_fn(Route) -> int {
    |r: Route| r.metric as int
}

/// The best default route for `family`, by metric and then interface index.
pub open spec fn spec_default_route_for(routes: Seq<Route>, family: Family) -> Option<Route> {
    match first_least(
        routes,
        routes.len() as int,
        default_for_family(family),
        metric_then_index(),
    ) {
        Some(p) => Some(routes[p]),
        None => None,
    }
}

/// The position of the first lowest-metric default route for `family` via
/// interface `index`.
pub open spec fn best_default_via(routes: Seq<Route>, index: u32, family: Family) -> Option<int> {
    first_least(
        routes,
        routes.len() as int,
        default_via_fn(index, family),
        metric_only(),
    )
}

/// Whether interface `index` owns a default route for `family`.
pub open spec fn spec_has_default_route(routes: Seq<Route>, index: u32, family: Family) -> bool {
    exists|i: int| 0 <= i < routes.len() && default_via(#[trigger] routes[i], index, family)
}

/// Whether interface `index` owns a default route for either family.
pub open spec fn spec_has_any_default_route(routes: Seq<Route>, index: u32) -> bool {
    exists|i: int|
        0 <= i < routes.len() && (#[trigger] routes[i]).spec_is_default()
            && routes[i].interface_index == index
}

/// The lowest metric among `index`'s default routes for `family`.
pub open spec fn spec_default_route_metric(routes: Seq<Route>, index: u32, family: Family) -> Option<
    u32,
> {
    match best_default_via(routes, index, family) {
        Some(p) => Some(routes[p].metric),
        None => None,
    }
}

/// The gateway of `index`'s lowest-metric default route for `family`.
pub open spec fn spec_gateway_for(routes: Seq<Route>, index: u32, family: Family) -> Option<IpAddr> {
    match best_default_via(routes, index, family) {
        Some(p) => routes[p].gateway,
        None => None,
    }
}

/// A position held in a `usize`, taken as an integer.
pub open spec fn as_position(o: Option<usize>) -> Option<int> {
    match o {
        Some(p) => Some(p as int),
        None => None,
    }
}

/// What `first_least` finds: a wanted route no other wanted route beats, and
/// the first of the routes tied with it; nothing when none is wanted.
pub proof fn lemma_first_least(
    routes: Seq<Route>,
    n: int,
    wanted: spec_fn(Route) -> bool,
    key: spec_fn(Route) -> int,
)
    requires
        0 <= n <= routes.len(),
    ensures
        match first_least(routes, n, wanted, key) {
            None => forall|j: int| 0 <= j < n ==> !wanted(#[trigger] routes[j]),
            Some(p) => {
                &&& 0 <= p < n
                &&& wanted(routes[p])
                &&& forall|j: int|
                    0 <= j < n && wanted(#[trigger] routes[j]) ==> key(routes[p]) <= key(
                        routes[j],
                    )
                &&& forall|j: int|
                    0 <= j < p && wanted(#[trigger] routes[j]) ==> key(routes[p]) < key(
                        routes[j],
                    )
            },
        },
    decreases n,
{
    if n > 0 {
        lemma_first_least(routes, n - 1, wanted, key);
    }
}

impl NetworkState {
    /// A snapshot of the given interfaces and routes, stamped with the current
    /// schema version and no capture time.
    pub fn new(interfaces: Vec<Interface>, routes: Vec<Route>) -> (s: NetworkState)
        ensures
            s.schema_version == SCHEMA_VERSION,
            s.captured_at is None,
            s.interfaces == interfaces,
            s.routes == routes,
    {
        NetworkState { schema_version: SCHEMA_VERSION, captured_at: None, interfaces, routes }
    }

    /// Stamp the snapshot with a capture time (seconds since the Unix epoch),
    /// as read from the clock by the caller.
    pub fn captured_now(self, now: Option<u64>) -> (s: NetworkState)
        ensures
            s.captured_at == now,
            s.schema_version == self.schema_version,
            s.interfaces == self.interfaces,
            s.routes == self.routes,
    {
        let mut s = self;
        s.captured_at = now;
        s
    }

    /// The position of the first interface with kernel index `index`.
    pub fn interface_by_index(&self, index: u32) -> (r: Option<usize>)
        ensures
            match r {
                Some(p) => p < self.interfaces.len() && self.interfaces@[p as int].index == index
                    && forall|j: int|
                    0 <= j < p ==> (#[trigger] self.interfaces@[j]).index != index,
                None => forall|j: int|
                    0 <= j < self.interfaces.len() ==> (#[trigger] self.interfaces@[j]).index
                        != index,
            },
    {
        let mut i: usize = 0;
        while i < self.interfaces.len()
            invariant
                i <= self.interfaces.len(),
                forall|j: int| 0 <= j < i ==> (#[trigger] self.interfaces@[j]).index != index,
            decreases self.interfaces.len() - i,
        {
            if self.interfaces[i].index == index {
                return Some(i);
            }
            i = i + 1;
        }
        None
    }

    /// The position of the first interface named `name`.
    pub fn interface_by_name(&self, name: &str) -> (r: Option<usize>)
        ensures
            match r {
                Some(p) => p < self.interfaces.len() && self.interfaces@[p as int].name@ == name@
                    && forall|j: int|
                    0 <= j < p ==> (#[trigger] self.interfaces@[j]).name@ != name@,
                None => forall|j: int|
                    0 <= j < self.interfaces.len() ==> (#[trigger] self.interfaces@[j]).name@
                        != name@,
            },
    {
        let mut i: usize = 0;
        while i < self.interfaces.len()
            invariant
                i <= self.interfaces.len(),
                forall|j: int| 0 <= j < i ==> (#[trigger] self.interfaces@[j]).name@ != name@,
            decreases self.interfaces.len() - i,
        {
            if str_eq(self.interfaces[i].name.as_str(), name) {
                return Some(i);
            }
            i = i + 1;
        }
        None
    }

    /// Every default route, for either family, in table order.
    pub fn default_routes(&self) -> (v: Vec<Route>)
        ensures
            v@ == self.routes@.filter(|r: Route| r.spec_is_default()),
    {
        let mut v: Vec<Route> = Vec::new();
        let mut i: usize = 0;
        while i < self.routes.len()
            invariant
                i <= self.routes.len(),
                v@ == self.routes@.subrange(0, i as int).filter(|r: Route| r.spec_is_default()),
            decreases self.routes.len() - i,
        {
            let r = self.routes[i];
            proof {
                assert(self.routes@.subrange(0, i + 1).drop_last() =~= self.routes@.subrange(
                    0,
                    i as int,
                ));
                reveal_with_fuel(Seq::filter, 1);
            }
            if r.is_default() {
                v.push(r);
            }
            i = i + 1;
        }
        assert(self.routes@.subrange(0, self.routes.len() as int) =~= self.routes@);
        v
    }

    /// The best default route for `family`: the lowest metric, then the lowest
    /// interface index, the first such in table order.
    pub fn default_route_for(&self, family: Family) -> (r: Option<Route>)
        ensures
            r == spec_default_route_for(self.routes@, family),
    {
        let ghost wanted = default_for_family(family);
        let ghost key = metric_then_index();
        let mut best: Option<usize> = None;
        let mut i: usize = 0;
        while i < self.routes.len()
            invariant
                i <= self.routes.len(),
                wanted == default_for_family(family),
                key == metric_then_index(),
                as_position(best) == first_least(self.routes@, i as int, wanted, key),
                forall|p: usize| best == Some(p) ==> p < i,
            decreases self.routes.len() - i,
        {
            let r = self.routes[i];
            let better = match best {
                None => true,
                Some(p) => {
                    let b = self.routes[p];
                    r.metric < b.metric || (r.metric == b.metric && r.interface_index
                        < b.interface_index)
                },
            };
            if r.is_default() && r.family == family && better {
                best = Some(i);
            }
            i = i + 1;
        }
        match best {
            Some(p) => Some(self.routes[p]),
            None => None,
        }
    }

    /// The position of `index`'s first lowest-metric default route for
    /// `family`.
    fn best_default_via(&self, index: u32, family: Family) -> (r: Option<usize>)
        ensures
            as_position(r) == best_default_via(self.routes@, index, family),
            forall|p: usize| r == Some(p) ==> p < self.routes.len(),
    {
        let ghost wanted = default_via_fn(index, family);
        let ghost key = metric_only();
        let mut best: Option<usize> = None;
        let mut i: usize = 0;
        while i < self.routes.len()
            invariant
                i <= self.routes.len(),
                wanted == default_via_fn(index, family),
                key == metric_only(),
                as_position(best) == first_least(self.routes@, i as int, wanted, key),
                forall|p: usize| best == Some(p) ==> p < i,
            decreases self.routes.len() - i,
        {
            let r = self.routes[i];
            let better = match best {
                None => true,
                Some(p) => r.metric < self.routes[p].metric,
            };
            if r.is_default() && r.interface_index == index && r.family == family && better {
                best = Some(i);
            }
            i = i + 1;
        }
        best
    }

    /// Whether interface `index` owns a default route for `family`.
    pub fn has_default_route(&self, index: u32, family: Family) -> (b: bool)
        ensures
            b == spec_has_default_route(self.routes@, index, family),
    {
        let mut i: usize = 0;
        while i < self.routes.len()
            invariant
                i <= self.routes.len(),
                forall|j: int| 0 <= j < i ==> !default_via(#[trigger] self.routes@[j], index, family),
            decreases self.routes.len() - i,
        {
            let r = self.routes[i];
            if r.is_default() && r.interface_index == index && r.family == family {
                assert(default_via(self.routes@[i as int], index, family));
                return true;
            }
            i = i + 1;
        }
        false
    }

    /// Whether interface `index` owns a default route for either family.
    pub fn has_any_default_route(&self, index: u32) -> (b: bool)
        ensures
            b == spec_has_any_default_route(self.routes@, index),
    {
        let mut i: usize = 0;
        while i < self.routes.len()
            invariant
                i <= self.routes.len(),
                forall|j: int|
                    0 <= j < i ==> !((#[trigger] self.routes@[j]).spec_is_default()
                        && self.routes@[j].interface_index == index),
            decreases self.routes.len() - i,
        {
            let r = self.routes[i];
            if r.is_default() && r.interface_index == index {
                return true;
            }
            i = i + 1;
        }
        false
    }

    /// The lowest metric among `index`'s default routes for `family`.
    pub fn default_route_metric(&self, index: u32, family: Family) -> (m: Option<u32>)
        ensures
            m == spec_default_route_metric(self.routes@, index, family),
    {
        match self.best_default_via(index, family) {
            Some(p) => Some(self.routes[p].metric),
            None => None,
        }
    }

    /// The gateway `index` uses for `family`: that of its lowest-metric
    /// default route, the first such in table order.
    pub fn gateway_for(&self, index: u32, family: Family) -> (g: Option<IpAddr>)
        ensures
            g == spec_gateway_for(self.routes@, index, family),
    {
        match self.best_default_via(index, family) {
            Some(p) => self.routes[p].gateway,
            None => None,
        }
    }
}

} // verus!
