//! The command line's shape, and the configuration precedence chain it
//! completes: built-in defaults, the configuration file, the `AUTONET_*`
//! variables, then the flags.

use vstd::prelude::*;

use crate::config::{env_overlaid, overlay_error, overlay_fails, Config, EnvOverrides};
use crate::error::CoreError;
use crate::model::FamilyPreference;

verus! {

/// A parsed command line.
#[derive(Debug, Clone)]
pub struct Cli {
    /// What to do. `None` means `status`.
    pub command: Option<Command>,
    /// The flags accepted before or after any command.
    pub global: GlobalArgs,
}

/// The commands.
#[derive(Debug, Clone)]
pub enum Command {
    /// Show the selected address and how it was chosen.
    Status,
    /// Print only the selected IP address.
    Ip,
    /// List network interfaces and their addresses.
    Interfaces,
    /// List routing table entries.
    Routes,
    /// Run a command with the LAN address in its environment.
    Run {
        /// The command to run, then its arguments.
        command: Vec<String>,
    },
    /// Print the selected address, then print it again whenever it changes.
    Watch,
    /// Check whether this machine can be reached, and say what is wrong.
    Doctor,
    /// Publish a `.local` name pointing at the selected address.
    Advertise,
}

/// Whether two commands are the same command with the same words.
pub open spec fn same_command(a: Command, b: Command) -> bool {
    match a {
        Command::Run { command: x } => b matches Command::Run { command: y } && x@ == y@,
        _ => a == b,
    }
}

/// A copy of a list of words.
fn copied(v: &Vec<String>) -> (r: Vec<String>)
    ensures
        r@ == v@,
{
    let mut r: Vec<String> = Vec::new();
    let mut i: usize = 0;
    while i < v.len()
        invariant
            i <= v@.len(),
            r@ == v@.subrange(0, i as int),
        decreases v@.len() - i,
    {
        let word = v[i].clone();
        r.push(word);
        assert(r@ =~= v@.subrange(0, i + 1));
        i = i + 1;
    }
    assert(v@.subrange(0, v@.len() as int) =~= v@);
    r
}

impl Cli {
    /// The command to run, applying the `status` default.
    pub fn command(&self) -> (c: Command)
        ensures
            match self.command {
                Some(given) => same_command(c, given),
                None => c == Command::Status,
            },
    {
        match &self.command {
            None => Command::Status,
            Some(Command::Status) => Command::Status,
            Some(Command::Ip) => Command::Ip,
            Some(Command::Interfaces) => Command::Interfaces,
            Some(Command::Routes) => Command::Routes,
            Some(Command::Run { command }) => Command::Run { command: copied(command) },
            Some(Command::Watch) => Command::Watch,
            Some(Command::Doctor) => Command::Doctor,
            Some(Command::Advertise) => Command::Advertise,
        }
    }
}

/// Flags accepted before or after any command.
#[derive(Debug, Clone)]
pub struct GlobalArgs {
    /// Emit machine-readable JSON.
    pub json: bool,
    /// Address family to prefer.
    pub family: Option<FamilyPreference>,
    /// Render URLs for this port.
    pub port: Option<u16>,
    /// Also print the network URL as a QR code.
    pub qr: bool,
    /// Use only this interface.
    pub interface: Option<String>,
    /// Never select these interfaces; a trailing `*` matches a prefix.
    pub exclude: Vec<String>,
    /// Read configuration from this file instead of the default location.
    pub config: Option<String>,
    /// Consider VPN tunnels.
    pub allow_vpn: bool,
    /// Consider container and virtual machine networks.
    pub allow_container: bool,
    /// Consider loopback addresses.
    pub allow_loopback: bool,
    /// Show every candidate, its score, and the rules behind it.
    pub verbose: bool,
}

/// The port to render URLs for: the flag where given, else the configured
/// default, and none where that is zero.
pub open spec fn chosen_port(flag: Option<u16>, configured: Option<u16>) -> Option<u16> {
    let picked = if flag is Some {
        flag
    } else {
        configured
    };
    match picked {
        Some(p) => if p != 0 {
            Some(p)
        } else {
            None
        },
        None => None,
    }
}

/// What the flags make of a configuration: the family and interface flags
/// replace their settings when given, the excluded names are added to the
/// configured ones, and each `--allow-*` switch can only turn its setting
/// on. Everything else is left as it was.
pub open spec fn flags_applied(args: GlobalArgs, before: Config, after: Config) -> bool {
    &&& after.selection.prefer_family == (match args.family {
        Some(f) => f,
        None => before.selection.prefer_family,
    })
    &&& (match args.interface {
        Some(name) => after.selection.require_interface matches Some(n) && n@ == name@,
        None => after.selection.require_interface == before.selection.require_interface,
    })
    &&& after.selection.exclude_interfaces@ == before.selection.exclude_interfaces@ + args.exclude@
    &&& after.selection.allow_vpn == (before.selection.allow_vpn || args.allow_vpn)
    &&& after.selection.allow_container == (before.selection.allow_container
        || args.allow_container)
    &&& after.selection.allow_loopback == (before.selection.allow_loopback
        || args.allow_loopback)
    &&& after.selection.allow_link_local == before.selection.allow_link_local
    &&& after.selection.include_down == before.selection.include_down
    &&& after.selection.prefer_interfaces == before.selection.prefer_interfaces
    &&& after.output == before.output
    &&& after.hostname == before.hostname
}

impl GlobalArgs {
    /// The port to render URLs for: the flag, else the configuration file.
    /// Zero means "none" in both places, and a zero flag does not fall back
    /// to the file.
    pub fn port(&self, config: &Config) -> (p: Option<u16>)
        ensures
            p == chosen_port(self.port, config.output.default_port),
    {
        let picked = match self.port {
            Some(p) => Some(p),
            None => config.output.default_port,
        };
        match picked {
            Some(p) => if p != 0 {
                Some(p)
            } else {
                None
            },
            None => None,
        }
    }

    /// Lay the flags over a configuration, as [`flags_applied`] says.
    pub fn apply_flags(&self, config: &mut Config)
        ensures
            flags_applied(*self, *old(config), *final(config)),
    {
        match self.family {
            Some(f) => config.selection.prefer_family = f,
            None => {},
        }
        match &self.interface {
            Some(name) => config.selection.require_interface = Some(name.clone()),
            None => {},
        }
        let mut i: usize = 0;
        while i < self.exclude.len()
            invariant
                i <= self.exclude@.len(),
                config.selection.exclude_interfaces@ == old(
                    config,
                ).selection.exclude_interfaces@ + self.exclude@.subrange(0, i as int),
                config.selection.prefer_family == (match self.family {
                    Some(f) => f,
                    None => old(config).selection.prefer_family,
                }),
                (match self.interface {
                    Some(name) => config.selection.require_interface matches Some(n) && n@
                        == name@,
                    None => config.selection.require_interface == old(
                        config,
                    ).selection.require_interface,
                }),
                config.selection.allow_vpn == old(config).selection.allow_vpn,
                config.selection.allow_container == old(config).selection.allow_container,
                config.selection.allow_loopback == old(config).selection.allow_loopback,
                config.selection.allow_link_local == old(config).selection.allow_link_local,
                config.selection.include_down == old(config).selection.include_down,
                config.selection.prefer_interfaces == old(config).selection.prefer_interfaces,
                config.output == old(config).output,
                config.hostname == old(config).hostname,
            decreases self.exclude@.len() - i,
        {
            let word = self.exclude[i].clone();
            config.selection.exclude_interfaces.push(word);
            assert(self.exclude@.subrange(0, i + 1) =~= self.exclude@.subrange(0, i as int).push(
                self.exclude@[i as int],
            ));
            i = i + 1;
        }
        assert(self.exclude@.subrange(0, self.exclude@.len() as int) =~= self.exclude@);
        if self.allow_vpn {
            config.selection.allow_vpn = true;
        }
        if self.allow_container {
            config.selection.allow_container = true;
        }
        if self.allow_loopback {
            config.selection.allow_loopback = true;
        }
    }

    /// The effective configuration. `loaded` is what was read below the
    /// environment: the file named by `--config`, else the one at the
    /// default location, else the built-in defaults (see
    /// [`Config::load_default`]); `env` holds the `AUTONET_*` variables.
    /// Precedence, lowest to highest: defaults, file, environment, flags.
    pub fn config(&self, loaded: Result<Config, CoreError>, env: &EnvOverrides) -> (r: Result<
        Config,
        CoreError,
    >)
        ensures
            loaded is Err ==> r == loaded,
            loaded is Ok ==> (r is Ok <==> !overlay_fails(*env)),
            loaded is Ok ==> (r matches Err(e) ==> overlay_error(*env, e)),
            loaded matches Ok(base) ==> (r matches Ok(c) ==> exists|layered: Config|
                env_overlaid(base, *env, layered) && flags_applied(*self, layered, c)),
    {
        let ghost from_file = loaded;
        match Config::load_layered(loaded, env) {
            Err(e) => Err(e),
            Ok(mut config) => {
                let ghost layered = config;
                self.apply_flags(&mut config);
                assert(from_file matches Ok(base) ==> env_overlaid(base, *env, layered)
                    && flags_applied(*self, layered, config));
                Ok(config)
            },
        }
    }
}

} // verus!
