//! Selection configuration, its defaults, the `AUTONET_*` overlay, and the
//! rules for locating the configuration file.
//!
//! Reading the file and the process environment is the caller's business:
//! the functions here take the values that were read.

use vstd::prelude::*;

use crate::error::CoreError;
use crate::model::{family_preference_named, FamilyPreference};
use crate::text::{
    ascii_lowered, debug_quote, debug_quoted, is_blank, owned, push_char, push_str, str_eq,
    starts_with, trim, trim_lower, trimmed,
};

verus! {

/// Rules governing address selection.
#[derive(Debug, Clone, PartialEq, Eq)]
pub struct SelectionConfig {
    /// Which address family to favour. Defaults to IPv4.
    pub prefer_family: FamilyPreference,
    /// Allow loopback addresses.
    pub allow_loopback: bool,
    /// Allow `169.254.0.0/16` / `fe80::/10` to be selected.
    pub allow_link_local: bool,
    /// Treat VPN and tunnel interfaces as ordinary candidates rather than
    /// penalising them.
    pub allow_vpn: bool,
    /// Treat container and virtualisation interfaces as ordinary candidates.
    pub allow_container: bool,
    /// Consider interfaces the kernel reports as down.
    pub include_down: bool,
    /// Interfaces to reject outright. Entries may end in `*` to match a
    /// prefix, for example `"docker*"`.
    pub exclude_interfaces: Vec<String>,
    /// Interfaces to strongly favour, with the same matching rules.
    pub prefer_interfaces: Vec<String>,
    /// Restrict selection to a single named interface.
    pub require_interface: Option<String>,
}

impl Default for SelectionConfig {
    fn default() -> (c: Self)
        ensures
            c.prefer_family == FamilyPreference::Ipv4,
            !c.allow_loopback,
            !c.allow_link_local,
            !c.allow_vpn,
            !c.allow_container,
            !c.include_down,
            c.exclude_interfaces@.len() == 0,
            c.prefer_interfaces@.len() == 0,
            c.require_interface is None,
    {
        SelectionConfig {
            prefer_family: FamilyPreference::Ipv4,
            allow_loopback: false,
            allow_link_local: false,
            allow_vpn: false,
            allow_container: false,
            include_down: false,
            exclude_interfaces: Vec::new(),
            prefer_interfaces: Vec::new(),
            require_interface: None,
        }
    }
}

/// How the CLI should render its results.
#[derive(Debug, Clone, Copy, PartialEq, Eq, Structural)]
pub enum OutputFormat {
    /// Human-readable text.
    Text,
    /// Machine-readable JSON.
    Json,
}

impl Default for OutputFormat {
    fn default() -> (f: Self)
        ensures
            f == OutputFormat::Text,
    {
        OutputFormat::Text
    }
}

/// Output preferences.
#[derive(Debug, Clone, Copy, PartialEq, Eq, Structural)]
pub struct OutputConfig {
    /// Default rendering format when no flag is given.
    pub format: OutputFormat,
    /// Port used to build example URLs when none is supplied on the command
    /// line.
    pub default_port: Option<u16>,
}

impl Default for OutputConfig {
    fn default() -> (c: Self)
        ensures
            c.format == OutputFormat::Text,
            c.default_port is None,
    {
        OutputConfig { format: OutputFormat::Text, default_port: None }
    }
}

/// The name this machine advertises on the local link, and whether it does.
#[derive(Debug, Clone, PartialEq, Eq)]
pub struct HostnameConfig {
    /// Whether this machine may advertise itself on the local link. Off by
    /// default: advertising publishes the machine to the whole segment.
    pub enabled: bool,
    /// The instance name to publish, without the `.local` suffix.
    pub name: Option<String>,
    /// The DNS-SD service type to advertise, for example `_http._tcp`.
    pub service: String,
}

impl Default for HostnameConfig {
    fn default() -> (c: Self)
        ensures
            !c.enabled,
            c.name is None,
            c.service@ == "_http._tcp"@,
    {
        HostnameConfig { enabled: false, name: None, service: owned("_http._tcp") }
    }
}

/// Top-level configuration.
#[derive(Debug, Clone, PartialEq, Eq)]
pub struct Config {
    /// How the selection engine picks an address.
    pub selection: SelectionConfig,
    /// How the CLI renders results.
    pub output: OutputConfig,
    /// The name this machine answers to on the local link.
    pub hostname: HostnameConfig,
}

impl Default for Config {
    fn default() -> (c: Self)
        ensures
            c.selection.prefer_family == FamilyPreference::Ipv4,
            !c.selection.allow_loopback,
            !c.selection.allow_link_local,
            !c.selection.allow_vpn,
            !c.selection.allow_container,
            !c.selection.include_down,
            c.selection.exclude_interfaces@.len() == 0,
            c.selection.prefer_interfaces@.len() == 0,
            c.selection.require_interface is None,
            c.output.format == OutputFormat::Text,
            c.output.default_port is None,
            !c.hostname.enabled,
            c.hostname.name is None,
            c.hostname.service@ == "_http._tcp"@,
    {
        Config {
            selection: SelectionConfig::default(),
            output: OutputConfig::default(),
            hostname: HostnameConfig::default(),
        }
    }
}

// ---------------------------------------------------------------------------
// Interface-name patterns
// ---------------------------------------------------------------------------

/// Whether `pattern` matches `name`: a trailing `*` matches any name that
/// begins with what precedes it; any other pattern matches only itself.
pub open spec fn pattern_matches(pattern: Seq<char>, name: Seq<char>) -> bool {
    if pattern.len() > 0 && pattern.last() == '*' {
        pattern.drop_last().is_prefix_of(name)
    } else {
        pattern == name
    }
}

/// Whether any of `patterns` matches `name`.
pub open spec fn any_pattern_matches(patterns: Seq<String>, name: Seq<char>) -> bool {
    exists|i: int| 0 <= i < patterns.len() && pattern_matches(#[trigger] patterns[i]@, name)
}

/// Match an interface name against a pattern: exact, or a prefix when the
/// pattern ends in a single `*` (`docker*`, `br-*`; a bare `*` matches
/// everything).
pub fn name_matches(pattern: &str, name: &str) -> (b: bool)
    ensures
        b == pattern_matches(pattern@, name@),
{
    let n = pattern.unicode_len();
    if n > 0 && pattern.get_char(n - 1) == '*' {
        let prefix = pattern.substring_char(0, n - 1);
        assert(prefix@ =~= pattern@.drop_last());
        starts_with(name, prefix)
    } else {
        str_eq(pattern, name)
    }
}

/// Whether any pattern in `patterns` matches `name`.
pub fn any_name_matches(patterns: &[String], name: &str) -> (b: bool)
    ensures
        b == any_pattern_matches(patterns@, name@),
{
    let mut i: usize = 0;
    while i < patterns.len()
        invariant
            i <= patterns@.len(),
            forall|j: int| 0 <= j < i ==> !pattern_matches(#[trigger] patterns@[j]@, name@),
        decreases patterns.len() - i,
    {
        if name_matches(patterns[i].as_str(), name) {
            return true;
        }
        i = i + 1;
    }
    false
}

// ---------------------------------------------------------------------------
// Locating the configuration file
// ---------------------------------------------------------------------------

/// `part` appended to the path `root`, with a `/` between them unless `root`
/// already ends in one.
pub open spec fn joined(root: Seq<char>, part: Seq<char>) -> Seq<char> {
    if root.len() > 0 && root.last() == '/' {
        root + part
    } else {
        root + seq!['/'] + part
    }
}

/// AutoNet's configuration file inside a configuration root.
pub open spec fn config_file_in(root: Seq<char>) -> Seq<char> {
    joined(joined(root, "autonet"@), "config.toml"@)
}

/// A value that is present and not empty.
pub open spec fn present(v: Option<String>) -> bool {
    v matches Some(s) && s@.len() > 0
}

/// Where the configuration file lives, given `XDG_CONFIG_HOME`, `APPDATA`
/// and `HOME`: the first two name a configuration root, the last a home
/// directory under which `.config` is the root; empty values are skipped.
pub open spec fn config_path_from(
    xdg: Option<String>,
    appdata: Option<String>,
    home: Option<String>,
) -> Option<Seq<char>> {
    if present(xdg) {
        Some(config_file_in(xdg->0@))
    } else if present(appdata) {
        Some(config_file_in(appdata->0@))
    } else if present(home) {
        Some(config_file_in(joined(home->0@, ".config"@)))
    } else {
        None
    }
}

/// Append `part` to `path` as a further path component.
fn push_component(path: &mut String, part: &str)
    ensures
        final(path)@ == joined(old(path)@, part@),
{
    let n = path.as_str().unicode_len();
    if n == 0 || path.as_str().get_char(n - 1) != '/' {
        push_char(path, '/');
    }
    push_str(path, part);
}

/// AutoNet's configuration file inside the configuration root `root`.
fn config_file(root: &str) -> (p: String)
    ensures
        p@ == config_file_in(root@),
{
    let mut p = owned(root);
    push_component(&mut p, "autonet");
    push_component(&mut p, "config.toml");
    p
}

/// Whether an optional value is present and non-empty.
fn is_present(v: &Option<String>) -> (b: bool)
    ensures
        b == present(*v),
{
    match v {
        Some(s) => s.as_str().unicode_len() > 0,
        None => false,
    }
}

/// Pick a configuration path from the three variables that might name one:
/// `XDG_CONFIG_HOME`, then `APPDATA`, then `HOME` (which grows a `.config`).
/// An empty variable falls through rather than rooting the path at nothing.
pub fn path_from(xdg: Option<String>, appdata: Option<String>, home: Option<String>) -> (p: Option<
    String,
>)
    ensures
        match p {
            Some(s) => config_path_from(xdg, appdata, home) == Some(s@),
            None => config_path_from(xdg, appdata, home) is None,
        },
{
    if is_present(&xdg) {
        match &xdg {
            Some(root) => return Some(config_file(root.as_str())),
            None => {},
        }
    }
    if is_present(&appdata) {
        match &appdata {
            Some(root) => return Some(config_file(root.as_str())),
            None => {},
        }
    }
    if is_present(&home) {
        match &home {
            Some(h) => {
                let mut root = owned(h.as_str());
                push_component(&mut root, ".config");
                return Some(config_file(root.as_str()));
            },
            None => {},
        }
    }
    None
}

// ---------------------------------------------------------------------------
// The environment layer
// ---------------------------------------------------------------------------

/// The values of the `AUTONET_*` variables, as read from the environment
/// (`None` where a variable is unset or not valid Unicode).
#[derive(Debug, Clone, PartialEq, Eq)]
pub struct EnvOverrides {
    /// `AUTONET_FAMILY`.
    pub family: Option<String>,
    /// `AUTONET_INTERFACE`.
    pub interface: Option<String>,
    /// `AUTONET_EXCLUDE_INTERFACES`, comma-separated.
    pub exclude_interfaces: Option<String>,
    /// `AUTONET_ALLOW_VPN`.
    pub allow_vpn: Option<String>,
    /// `AUTONET_ALLOW_CONTAINER`.
    pub allow_container: Option<String>,
    /// `AUTONET_ALLOW_LOOPBACK`.
    pub allow_loopback: Option<String>,
    /// `AUTONET_HOSTNAME`.
    pub hostname: Option<String>,
}

/// A variable counts as set when its value is not blank.
pub open spec fn is_set(v: Option<String>) -> bool {
    v matches Some(s) && trimmed(s@).len() > 0
}

/// The boolean a setting's text names, after trimming and lowercasing.
pub open spec fn boolean_named(k: Seq<char>) -> Option<bool> {
    if k == "1"@ || k == "true"@ || k == "yes"@ || k == "on"@ {
        Some(true)
    } else if k == "0"@ || k == "false"@ || k == "no"@ || k == "off"@ {
        Some(false)
    } else {
        None
    }
}

/// The message for a boolean variable holding something else.
pub open spec fn not_a_boolean(key: Seq<char>, raw: Seq<char>) -> Seq<char> {
    key + " must be a boolean, got "@ + debug_quoted(raw)
}

/// What a boolean variable sets: nothing when unset, the boolean it names,
/// or (as `Err`) the message when it names none.
pub open spec fn boolean_setting(key: Seq<char>, v: Option<String>) -> Result<Option<bool>, Seq<char>> {
    if !is_set(v) {
        Ok(None)
    } else {
        match boolean_named(ascii_lowered(trimmed(v->0@))) {
            Some(b) => Ok(Some(b)),
            None => Err(not_a_boolean(key, v->0@)),
        }
    }
}

/// Parse the value of a boolean variable named `key`: `1`/`true`/`yes`/`on`
/// or `0`/`false`/`no`/`off`, ignoring case and surrounding whitespace. A
/// blank or absent value sets nothing.
pub fn parse_bool_setting(key: &str, value: &Option<String>) -> (r: Result<Option<bool>, CoreError>)
    ensures
        match boolean_setting(key@, *value) {
            Ok(b) => r == Ok::<Option<bool>, CoreError>(b),
            Err(m) => r matches Err(CoreError::InvalidConfig(e)) && e@ == m,
        },
{
    let raw = match value {
        Some(s) => s.as_str(),
        None => return Ok(None),
    };
    if is_blank(raw) {
        return Ok(None);
    }
    let k = trim_lower(raw);
    let k = k.as_str();
    if str_eq(k, "1") || str_eq(k, "true") || str_eq(k, "yes") || str_eq(k, "on") {
        Ok(Some(true))
    } else if str_eq(k, "0") || str_eq(k, "false") || str_eq(k, "no") || str_eq(k, "off") {
        Ok(Some(false))
    } else {
        let mut m = owned(key);
        push_str(&mut m, " must be a boolean, got ");
        let quoted = debug_quote(raw);
        push_str(&mut m, quoted.as_str());
        Err(CoreError::InvalidConfig(m))
    }
}

/// `s` split at each comma (`str::split(',')`): always at least one piece.
pub open spec fn comma_pieces(s: Seq<char>) -> Seq<Seq<char>>
    decreases s.len(),
{
    if s.len() == 0 {
        seq![Seq::<char>::empty()]
    } else if s.last() == ',' {
        comma_pieces(s.drop_last()).push(Seq::<char>::empty())
    } else {
        let p = comma_pieces(s.drop_last());
        p.update(p.len() - 1, p.last().push(s.last()))
    }
}

/// The trimmed pieces that are not empty, in order.
pub open spec fn kept_items(pieces: Seq<Seq<char>>) -> Seq<Seq<char>>
    decreases pieces.len(),
{
    if pieces.len() == 0 {
        Seq::empty()
    } else {
        let rest = kept_items(pieces.drop_last());
        if trimmed(pieces.last()).len() > 0 {
            rest.push(trimmed(pieces.last()))
        } else {
            rest
        }
    }
}

/// A comma-separated list: each item trimmed, empty items dropped.
pub open spec fn comma_list(s: Seq<char>) -> Seq<Seq<char>> {
    kept_items(comma_pieces(s))
}

/// The characters of each string.
pub open spec fn views(v: Seq<String>) -> Seq<Seq<char>> {
    v.map_values(|s: String| s@)
}

/// `comma_pieces` never comes back empty.
proof fn lemma_comma_pieces_nonempty(s: Seq<char>)
    ensures
        comma_pieces(s).len() >= 1,
    decreases s.len(),
{
    if s.len() > 0 {
        lemma_comma_pieces_nonempty(s.drop_last());
    }
}

/// Split a comma-separated list, trimming each item and dropping the empty
/// ones.
pub fn split_list(s: &str) -> (v: Vec<String>)
    ensures
        views(v@) == comma_list(s@),
{
    let n = s.unicode_len();
    let mut items: Vec<String> = Vec::new();
    let mut cur = String::new();
    let mut i: usize = 0;
    proof {
        assert(s@.subrange(0, 0) =~= Seq::<char>::empty());
    }
    while i < n
        invariant
            n == s@.len(),
            i <= n,
            comma_pieces(s@.subrange(0, i as int)).len() >= 1,
            cur@ == comma_pieces(s@.subrange(0, i as int)).last(),
            views(items@) == kept_items(comma_pieces(s@.subrange(0, i as int)).drop_last()),
        decreases n - i,
    {
        let c = s.get_char(i);
        let ghost pre = s@.subrange(0, i as int);
        let ghost next = s@.subrange(0, i + 1);
        proof {
            assert(next.drop_last() =~= pre);
            assert(next.last() == c);
            lemma_comma_pieces_nonempty(pre);
        }
        if c == ',' {
            let t = trim(cur.as_str());
            proof {
                assert(comma_pieces(next) == comma_pieces(pre).push(Seq::<char>::empty()));
                assert(comma_pieces(next).drop_last() =~= comma_pieces(pre));
                assert(comma_pieces(pre).drop_last() =~= comma_pieces(pre).drop_last());
            }
            if t.as_str().unicode_len() > 0 {
                items.push(t);
                proof {
                    assert(views(items@) =~= views(items@.drop_last()).push(t@));
                }
            }
            cur = String::new();
        } else {
            push_char(&mut cur, c);
            proof {
                let p = comma_pieces(pre);
                assert(comma_pieces(next) == p.update(p.len() - 1, p.last().push(c)));
                assert(comma_pieces(next).drop_last() =~= p.drop_last());
            }
        }
        i = i + 1;
    }
    proof {
        assert(s@.subrange(0, n as int) =~= s@);
        lemma_comma_pieces_nonempty(s@);
        let p = comma_pieces(s@);
        assert(p.drop_last().push(p.last()) =~= p);
        assert(p =~= p.drop_last().push(p.last()));
    }
    let t = trim(cur.as_str());
    if t.as_str().unicode_len() > 0 {
        items.push(t);
        proof {
            assert(views(items@) =~= views(items@.drop_last()).push(t@));
        }
    }
    proof {
        let p = comma_pieces(s@);
        assert(kept_items(p) == kept_items(p.drop_last().push(p.last())));
        assert(p.drop_last().push(p.last()).drop_last() =~= p.drop_last());
    }
    items
}

/// Whether the family variable is set to something that names no family.
pub open spec fn family_fails(env: EnvOverrides) -> bool {
    is_set(env.family) && family_preference_named(ascii_lowered(trimmed(env.family->0@))) is None
}

/// Whether the overlay stops at `AUTONET_ALLOW_VPN`.
pub open spec fn vpn_fails(env: EnvOverrides) -> bool {
    !family_fails(env) && boolean_setting("AUTONET_ALLOW_VPN"@, env.allow_vpn) is Err
}

/// Whether the overlay stops at `AUTONET_ALLOW_CONTAINER`.
pub open spec fn container_fails(env: EnvOverrides) -> bool {
    !family_fails(env) && !vpn_fails(env) && boolean_setting(
        "AUTONET_ALLOW_CONTAINER"@,
        env.allow_container,
    ) is Err
}

/// Whether the overlay stops at `AUTONET_ALLOW_LOOPBACK`.
pub open spec fn loopback_fails(env: EnvOverrides) -> bool {
    !family_fails(env) && !vpn_fails(env) && !container_fails(env) && boolean_setting(
        "AUTONET_ALLOW_LOOPBACK"@,
        env.allow_loopback,
    ) is Err
}

/// Whether the overlay stops anywhere.
pub open spec fn overlay_fails(env: EnvOverrides) -> bool {
    family_fails(env) || vpn_fails(env) || container_fails(env) || loopback_fails(env)
}

/// A boolean the overlay reached and that names a value.
pub open spec fn boolean_reached(key: Seq<char>, v: Option<String>, reached: bool) -> Option<bool> {
    if reached {
        match boolean_setting(key, v) {
            Ok(b) => b,
            Err(_) => None,
        }
    } else {
        None
    }
}

/// The error the overlay stops with: the family that names none, else the
/// first `allow_*` switch that names no boolean, with the message that says so.
pub open spec fn overlay_error(env: EnvOverrides, e: CoreError) -> bool {
    &&& family_fails(env) ==> (e matches CoreError::Parse { kind, value } && kind@
        == "FamilyPreference"@ && value@ == env.family->0@)
    &&& vpn_fails(env) ==> (e matches CoreError::InvalidConfig(m) && boolean_setting(
        "AUTONET_ALLOW_VPN"@,
        env.allow_vpn,
    ) == Err::<Option<bool>, Seq<char>>(m@))
    &&& container_fails(env) ==> (e matches CoreError::InvalidConfig(m) && boolean_setting(
        "AUTONET_ALLOW_CONTAINER"@,
        env.allow_container,
    ) == Err::<Option<bool>, Seq<char>>(m@))
    &&& loopback_fails(env) ==> (e matches CoreError::InvalidConfig(m) && boolean_setting(
        "AUTONET_ALLOW_LOOPBACK"@,
        env.allow_loopback,
    ) == Err::<Option<bool>, Seq<char>>(m@))
}

/// What the overlay leaves behind: each setting the overlay reached before
/// stopping takes the variable's value where one is set, and every other
/// setting keeps its value.
pub open spec fn env_overlaid(before: Config, env: EnvOverrides, after: Config) -> bool {
    &&& after.selection.prefer_family == (if is_set(env.family) && !family_fails(env) {
        family_preference_named(ascii_lowered(trimmed(env.family->0@)))->0
    } else {
        before.selection.prefer_family
    })
    &&& (!family_fails(env) && is_set(env.interface)) ==> (after.selection.require_interface matches Some(
        n,
    ) && n@ == env.interface->0@)
    &&& !(!family_fails(env) && is_set(env.interface)) ==> after.selection.require_interface
        == before.selection.require_interface
    &&& (!family_fails(env) && is_set(env.exclude_interfaces)) ==> views(
        after.selection.exclude_interfaces@,
    ) == comma_list(env.exclude_interfaces->0@)
    &&& !(!family_fails(env) && is_set(env.exclude_interfaces))
        ==> after.selection.exclude_interfaces == before.selection.exclude_interfaces
    &&& after.selection.allow_vpn == (match boolean_reached(
        "AUTONET_ALLOW_VPN"@,
        env.allow_vpn,
        !family_fails(env),
    ) {
        Some(b) => b,
        None => before.selection.allow_vpn,
    })
    &&& after.selection.allow_container == (match boolean_reached(
        "AUTONET_ALLOW_CONTAINER"@,
        env.allow_container,
        !family_fails(env) && !vpn_fails(env),
    ) {
        Some(b) => b,
        None => before.selection.allow_container,
    })
    &&& after.selection.allow_loopback == (match boolean_reached(
        "AUTONET_ALLOW_LOOPBACK"@,
        env.allow_loopback,
        !family_fails(env) && !vpn_fails(env) && !container_fails(env),
    ) {
        Some(b) => b,
        None => before.selection.allow_loopback,
    })
    &&& (!overlay_fails(env) && is_set(env.hostname)) ==> (after.hostname.name matches Some(n)
        && n@ == env.hostname->0@)
    &&& !(!overlay_fails(env) && is_set(env.hostname)) ==> after.hostname.name
        == before.hostname.name
    &&& after.selection.allow_link_local == before.selection.allow_link_local
    &&& after.selection.include_down == before.selection.include_down
    &&& after.selection.prefer_interfaces == before.selection.prefer_interfaces
    &&& after.output == before.output
    &&& after.hostname.enabled == before.hostname.enabled
    &&& after.hostname.service == before.hostname.service
}

impl SelectionConfig {
    /// The first half of the environment overlay: family, required interface
    /// and excluded interfaces. Stops, changing nothing, when the family
    /// names none.
    fn overlay_names(&mut self, env: &EnvOverrides) -> (r: Result<(), CoreError>)
        ensures
            r is Ok <==> !family_fails(*env),
            family_fails(*env) ==> (r matches Err(CoreError::Parse { kind, value }) && kind@
                == "FamilyPreference"@ && value@ == env.family->0@),
            final(self).prefer_family == (if is_set(env.family) && !family_fails(*env) {
                family_preference_named(ascii_lowered(trimmed(env.family->0@)))->0
            } else {
                old(self).prefer_family
            }),
            (!family_fails(*env) && is_set(env.interface)) ==> (final(self).require_interface matches Some(n) && n@ == env.interface->0@),
            !(!family_fails(*env) && is_set(env.interface)) ==> final(self).require_interface == old(self).require_interface,
            (!family_fails(*env) && is_set(env.exclude_interfaces)) ==> views(final(self).exclude_interfaces@) == comma_list(env.exclude_interfaces->0@),
            !(!family_fails(*env) && is_set(env.exclude_interfaces)) ==> final(self).exclude_interfaces == old(self).exclude_interfaces,
            final(self).allow_vpn == old(self).allow_vpn,
            final(self).allow_container == old(self).allow_container,
            final(self).allow_loopback == old(self).allow_loopback,
            final(self).allow_link_local == old(self).allow_link_local,
            final(self).include_down == old(self).include_down,
            final(self).prefer_interfaces == old(self).prefer_interfaces,
    {
        if let Some(v) = &env.family {
            if !is_blank(v.as_str()) {
                match FamilyPreference::parse(v.as_str()) {
                    Ok(p) => self.prefer_family = p,
                    Err(e) => return Err(e),
                }
            }
        }
        if let Some(v) = &env.interface {
            if !is_blank(v.as_str()) {
                self.require_interface = Some(owned(v.as_str()));
            }
        }
        if let Some(v) = &env.exclude_interfaces {
            if !is_blank(v.as_str()) {
                self.exclude_interfaces = split_list(v.as_str());
            }
        }
        Ok(())
    }

    /// The second half of the environment overlay: the three `allow_*`
    /// switches, in order, stopping at the first that names no boolean.
    fn overlay_switches(&mut self, env: &EnvOverrides) -> (r: Result<(), CoreError>)
        ensures
            r is Ok <==> (boolean_setting("AUTONET_ALLOW_VPN"@, env.allow_vpn) is Ok && boolean_setting("AUTONET_ALLOW_CONTAINER"@, env.allow_container) is Ok && boolean_setting("AUTONET_ALLOW_LOOPBACK"@, env.allow_loopback) is Ok),
            boolean_setting("AUTONET_ALLOW_VPN"@, env.allow_vpn) is Err ==> (r matches Err(CoreError::InvalidConfig(m)) && boolean_setting("AUTONET_ALLOW_VPN"@, env.allow_vpn) == Err::<Option<bool>, Seq<char>>(m@)),
            (boolean_setting("AUTONET_ALLOW_VPN"@, env.allow_vpn) is Ok && boolean_setting("AUTONET_ALLOW_CONTAINER"@, env.allow_container) is Err) ==> (r matches Err(CoreError::InvalidConfig(m)) && boolean_setting("AUTONET_ALLOW_CONTAINER"@, env.allow_container) == Err::<Option<bool>, Seq<char>>(m@)),
            (boolean_setting("AUTONET_ALLOW_VPN"@, env.allow_vpn) is Ok && boolean_setting("AUTONET_ALLOW_CONTAINER"@, env.allow_container) is Ok && boolean_setting("AUTONET_ALLOW_LOOPBACK"@, env.allow_loopback) is Err) ==> (r matches Err(CoreError::InvalidConfig(m)) && boolean_setting("AUTONET_ALLOW_LOOPBACK"@, env.allow_loopback) == Err::<Option<bool>, Seq<char>>(m@)),
            final(self).allow_vpn == (match boolean_reached("AUTONET_ALLOW_VPN"@, env.allow_vpn, true) {
                Some(b) => b,
                None => old(self).allow_vpn,
            }),
            final(self).allow_container == (match boolean_reached("AUTONET_ALLOW_CONTAINER"@, env.allow_container, boolean_setting("AUTONET_ALLOW_VPN"@, env.allow_vpn) is Ok) {
                Some(b) => b,
                None => old(self).allow_container,
            }),
            final(self).allow_loopback == (match boolean_reached("AUTONET_ALLOW_LOOPBACK"@, env.allow_loopback, boolean_setting("AUTONET_ALLOW_VPN"@, env.allow_vpn) is Ok && boolean_setting("AUTONET_ALLOW_CONTAINER"@, env.allow_container) is Ok) {
                Some(b) => b,
                None => old(self).allow_loopback,
            }),
            final(self).prefer_family == old(self).prefer_family,
            final(self).require_interface == old(self).require_interface,
            final(self).exclude_interfaces == old(self).exclude_interfaces,
            final(self).allow_link_local == old(self).allow_link_local,
            final(self).include_down == old(self).include_down,
            final(self).prefer_interfaces == old(self).prefer_interfaces,
    {
        match parse_bool_setting("AUTONET_ALLOW_VPN", &env.allow_vpn) {
            Ok(Some(b)) => self.allow_vpn = b,
            Ok(None) => {},
            Err(e) => return Err(e),
        }
        match parse_bool_setting("AUTONET_ALLOW_CONTAINER", &env.allow_container) {
            Ok(Some(b)) => self.allow_container = b,
            Ok(None) => {},
            Err(e) => return Err(e),
        }
        match parse_bool_setting("AUTONET_ALLOW_LOOPBACK", &env.allow_loopback) {
            Ok(Some(b)) => self.allow_loopback = b,
            Ok(None) => {},
            Err(e) => return Err(e),
        }
        Ok(())
    }
}

impl Config {
    /// Overlay the `AUTONET_*` variables onto this configuration, in order:
    /// family, interface, excluded interfaces, the three `allow_*` switches,
    /// and the advertised name. A blank or absent variable leaves its
    /// setting alone. The first value that cannot be parsed stops the
    /// overlay with an error, keeping what was applied before it.
    ///
    /// There is deliberately no variable for `hostname.enabled`: publishing
    /// this machine on the LAN is an opt-in for the configuration file alone.
    pub fn apply_env(&mut self, env: &EnvOverrides) -> (r: Result<(), CoreError>)
        ensures
            r is Ok <==> !overlay_fails(*env),
            r matches Err(e) ==> overlay_error(*env, e),
            env_overlaid(*old(self), *env, *final(self)),
    {
        match self.selection.overlay_names(env) {
            Ok(()) => {},
            Err(e) => return Err(e),
        }
        match self.selection.overlay_switches(env) {
            Ok(()) => {},
            Err(e) => return Err(e),
        }
        if let Some(v) = &env.hostname {
            if !is_blank(v.as_str()) {
                self.hostname.name = Some(owned(v.as_str()));
            }
        }
        Ok(())
    }

    /// Whether this is the built-in default configuration.
    pub open spec fn is_builtin_default(self) -> bool {
        &&& self.selection.prefer_family == FamilyPreference::Ipv4
        &&& !self.selection.allow_loopback
        &&& !self.selection.allow_link_local
        &&& !self.selection.allow_vpn
        &&& !self.selection.allow_container
        &&& !self.selection.include_down
        &&& self.selection.exclude_interfaces@.len() == 0
        &&& self.selection.prefer_interfaces@.len() == 0
        &&& self.selection.require_interface is None
        &&& self.output.format == OutputFormat::Text
        &&& self.output.default_port is None
        &&& !self.hostname.enabled
        &&& self.hostname.name is None
        &&& self.hostname.service@ == "_http._tcp"@
    }

    /// The configuration to start from when no file was named: what was
    /// read from the file at the default location, where one exists there,
    /// and the built-in defaults otherwise. `found` is that file's parse, or
    /// `None` when there was no default location or nothing at it.
    pub fn load_default(found: Option<Result<Config, CoreError>>) -> (r: Result<Config, CoreError>)
        ensures
            found is None ==> (r matches Ok(c) && c.is_builtin_default()),
            found matches Some(loaded) ==> r == loaded,
    {
        match found {
            Some(loaded) => loaded,
            None => Ok(Config::default()),
        }
    }

    /// The configuration below the command-line flags: the file's (`loaded`,
    /// from the named path or the default location), with the `AUTONET_*`
    /// variables laid over it. An error reading the file comes back as it
    /// is; otherwise the overlay decides, as [`Config::apply_env`] says.
    pub fn load_layered(loaded: Result<Config, CoreError>, env: &EnvOverrides) -> (r: Result<
        Config,
        CoreError,
    >)
        ensures
            loaded is Err ==> r == loaded,
            loaded is Ok ==> (r is Ok <==> !overlay_fails(*env)),
            loaded is Ok ==> (r matches Err(e) ==> overlay_error(*env, e)),
            loaded matches Ok(base) ==> (r matches Ok(c) ==> env_overlaid(base, *env, c)),
    {
        match loaded {
            Err(e) => Err(e),
            Ok(mut config) => {
                match config.apply_env(env) {
                    Ok(()) => Ok(config),
                    Err(e) => Err(e),
                }
            },
        }
    }
}

} // verus!

verus! {

/// The words that switch a boolean setting on, and those that switch it
/// off: a setting whose text, trimmed and lowercased, is `1`, `true`, `yes`
/// or `on` turns it on, and one that is `0`, `false`, `no` or `off` turns
/// it off, whatever the variable is called.
pub proof fn law_boolean_words(key: Seq<char>, v: String)
    ensures
        ascii_lowered(trimmed(v@)) == "1"@ || ascii_lowered(trimmed(v@)) == "true"@
            || ascii_lowered(trimmed(v@)) == "yes"@ || ascii_lowered(trimmed(v@)) == "on"@
            ==> boolean_setting(key, Some(v)) == Ok::<Option<bool>, Seq<char>>(Some(true)),
        ascii_lowered(trimmed(v@)) == "0"@ || ascii_lowered(trimmed(v@)) == "false"@
            || ascii_lowered(trimmed(v@)) == "no"@ || ascii_lowered(trimmed(v@)) == "off"@
            ==> boolean_setting(key, Some(v)) == Ok::<Option<bool>, Seq<char>>(Some(false)),
{
    reveal_strlit("1");
    reveal_strlit("true");
    reveal_strlit("yes");
    reveal_strlit("on");
    reveal_strlit("0");
    reveal_strlit("false");
    reveal_strlit("no");
    reveal_strlit("off");
    let k = ascii_lowered(trimmed(v@));
    assert(k.len() == trimmed(v@).len());
    if k.len() > 0 {
        assert(is_set(Some(v)));
    }
    assert("1"@.len() == 1 && "true"@.len() == 4 && "yes"@.len() == 3 && "on"@.len() == 2);
    assert("0"@.len() == 1 && "false"@.len() == 5 && "no"@.len() == 2 && "off"@.len() == 3);
    assert("1"@[0] != "0"@[0]);
    assert("on"@[0] != "no"@[0]);
    assert("yes"@[0] != "off"@[0]);
}

/// `AUTONET_ALLOW_VPN` set to an on word turns VPN addresses on, and set
/// to an off word turns them off, whatever the file said, once a valid
/// family (or none) has let the overlay reach it.
pub proof fn law_allow_vpn_follows_its_word(before: Config, env: EnvOverrides, after: Config, v: String)
    requires
        env_overlaid(before, env, after),
        !family_fails(env),
        env.allow_vpn == Some(v),
    ensures
        ascii_lowered(trimmed(v@)) == "1"@ || ascii_lowered(trimmed(v@)) == "true"@
            || ascii_lowered(trimmed(v@)) == "yes"@ || ascii_lowered(trimmed(v@)) == "on"@
            ==> after.selection.allow_vpn,
        ascii_lowered(trimmed(v@)) == "0"@ || ascii_lowered(trimmed(v@)) == "false"@
            || ascii_lowered(trimmed(v@)) == "no"@ || ascii_lowered(trimmed(v@)) == "off"@
            ==> !after.selection.allow_vpn,
{
    law_boolean_words("AUTONET_ALLOW_VPN"@, v);
}

} // verus!
