//! `autonet advertise`: the name that is published, the DNS-SD service type
//! it is published under, and what the command says while it does so. The
//! mDNS responder itself is the program's business.

use vstd::prelude::*;

use crate::cli::args::GlobalArgs;
use crate::cli::render::{as_heading, as_label, as_muted, as_value, as_warn, Theme};
use crate::config::HostnameConfig;
use crate::event::opt_view;
use crate::ip::IpAddr;
use crate::text::{decimal, owned, push_numeral, push_range, push_str, range_eq};

verus! {

/// What is appended to the machine's own name, so that the published name
/// never races the system responder for `<hostname>.local`.
pub const SUFFIX: &'static str = "-autonet";

// ---------------------------------------------------------------------------
// Names
// ---------------------------------------------------------------------------

/// `s` without the dots at its end.
pub open spec fn without_trailing_dots(s: Seq<char>) -> Seq<char>
    decreases s.len(),
{
    if s.len() > 0 && s.last() == '.' {
        without_trailing_dots(s.drop_last())
    } else {
        s
    }
}

/// The part of `s` after its last dot: all of it when it has none.
pub open spec fn last_label(s: Seq<char>) -> Seq<char>
    decreases s.len(),
{
    if s.len() == 0 {
        s
    } else if s.last() == '.' {
        Seq::empty()
    } else {
        last_label(s.drop_last()).push(s.last())
    }
}

/// The part of `s` before its first dot: all of it when it has none.
pub open spec fn first_label(s: Seq<char>) -> Seq<char>
    decreases s.len(),
{
    if s.len() == 0 {
        s
    } else if s[0] == '.' {
        Seq::empty()
    } else {
        seq![s[0]] + first_label(s.drop_first())
    }
}

/// The service type as mDNS wants it: fully qualified under `local.`,
/// whether or not the configuration spelled that out.
pub open spec fn service_type_text(configured: Seq<char>) -> Seq<char> {
    let t = without_trailing_dots(configured);
    if last_label(t) == "local"@ {
        t + "."@
    } else {
        t + ".local."@
    }
}

/// Where the trailing dots of `s` begin.
fn trailing_dots_start(s: &str) -> (end: usize)
    ensures
        end <= s@.len(),
        without_trailing_dots(s@) == s@.subrange(0, end as int),
        end == 0 || s@[end - 1] != '.',
{
    let mut end = s.unicode_len();
    assert(s@.subrange(0, end as int) =~= s@);
    while end > 0 && s.get_char(end - 1) == '.'
        invariant
            end <= s@.len(),
            without_trailing_dots(s@) == without_trailing_dots(s@.subrange(0, end as int)),
        decreases end,
    {
        assert(s@.subrange(0, end as int).drop_last() =~= s@.subrange(0, end - 1));
        end = end - 1;
    }
    end
}

/// Where the last label of the first `end` characters of `s` begins.
fn last_label_start(s: &str, end: usize) -> (k: usize)
    requires
        end <= s@.len(),
    ensures
        k <= end,
        last_label(s@.subrange(0, end as int)) == s@.subrange(k as int, end as int),
{
    let ghost t = s@.subrange(0, end as int);
    let mut k = end;
    assert(s@.subrange(end as int, end as int) =~= Seq::<char>::empty());
    assert(t =~= s@.subrange(0, k as int));
    while k > 0 && s.get_char(k - 1) != '.'
        invariant
            k <= end <= s@.len(),
            t == s@.subrange(0, end as int),
            last_label(t) == last_label(s@.subrange(0, k as int)) + s@.subrange(
                k as int,
                end as int,
            ),
        decreases k,
    {
        let ghost head = s@.subrange(0, k as int);
        assert(head.drop_last() =~= s@.subrange(0, k - 1));
        assert(last_label(head) == last_label(s@.subrange(0, k - 1)).push(s@[k - 1]));
        assert(last_label(s@.subrange(0, k - 1)).push(s@[k - 1]) + s@.subrange(k as int, end as int)
            =~= last_label(s@.subrange(0, k - 1)) + s@.subrange(k - 1, end as int));
        k = k - 1;
    }
    assert(last_label(s@.subrange(0, k as int)) =~= Seq::<char>::empty());
    assert(Seq::<char>::empty() + s@.subrange(k as int, end as int) =~= s@.subrange(
        k as int,
        end as int,
    ));
    k
}

/// The DNS-SD service type to register, fully qualified: `_http._tcp`
/// becomes `_http._tcp.local.`, and a name that already ends in `local`
/// (with or without its dot) just gains the dot.
pub fn service_type(configured: &str) -> (t: String)
    ensures
        t@ == service_type_text(configured@),
{
    let end = trailing_dots_start(configured);
    let start = last_label_start(configured, end);
    let mut out = String::new();
    push_range(&mut out, configured, 0, end);
    assert(out@ =~= without_trailing_dots(configured@));
    if range_eq(configured, start, end, "local") {
        push_str(&mut out, ".");
    } else {
        push_str(&mut out, ".local.");
    }
    out
}

/// The name to publish: the configured one, else the first label of the
/// machine's host name with [`SUFFIX`], else `autonet` where the machine
/// has no usable name.
pub open spec fn instance_text(configured: Option<String>, machine: Option<Seq<char>>) -> Seq<
    char,
> {
    match configured {
        Some(name) => name@,
        None => match machine {
            Some(m) => if first_label(m).len() > 0 {
                first_label(m) + "-autonet"@
            } else {
                "autonet"@
            },
            None => "autonet"@,
        },
    }
}

/// Where the first label of `s` ends.
fn first_label_end(s: &str) -> (k: usize)
    ensures
        k <= s@.len(),
        first_label(s@) == s@.subrange(0, k as int),
{
    let n = s.unicode_len();
    let mut k: usize = 0;
    while k < n && s.get_char(k) != '.'
        invariant
            n == s@.len(),
            k <= n,
            forall|j: int| 0 <= j < k ==> s@[j] != '.',
        decreases n - k,
    {
        k = k + 1;
    }
    proof {
        lemma_first_label(s@, k as int);
    }
    k
}

/// The first label is the run of characters before the first dot.
proof fn lemma_first_label(s: Seq<char>, k: int)
    requires
        0 <= k <= s.len(),
        forall|j: int| 0 <= j < k ==> s[j] != '.',
        k == s.len() || s[k] == '.',
    ensures
        first_label(s) == s.subrange(0, k),
    decreases s.len(),
{
    if s.len() == 0 {
    } else if k == 0 {
    } else {
        lemma_first_label(s.drop_first(), k - 1);
        assert(seq![s[0]] + s.drop_first().subrange(0, k - 1) =~= s.subrange(0, k));
    }
}

/// The name to publish, given the machine's host name as the system
/// reported it (`None` where it could not be read as text).
pub fn instance_name_for(config: &HostnameConfig, machine: Option<String>) -> (n: String)
    ensures
        n@ == instance_text(config.name, opt_view(machine)),
{
    match &config.name {
        Some(name) => name.clone(),
        None => match machine {
            Some(m) => {
                let k = first_label_end(m.as_str());
                if k > 0 {
                    let mut out = String::new();
                    push_range(&mut out, m.as_str(), 0, k);
                    assert(out@ =~= m@.subrange(0, k as int));
                    push_str(&mut out, SUFFIX);
                    out
                } else {
                    owned("autonet")
                }
            },
            None => owned("autonet"),
        },
    }
}

/// The machine's host name, as text where it is valid UTF-8. Trusted: it
/// calls `hostname::get`, whose answer is the machine's and may change
/// between calls, so nothing is claimed of it.
#[verifier::external_body]
fn machine_hostname() -> (h: Option<String>) {
    hostname::get().ok().and_then(|name| name.into_string().ok())
}

/// The name to publish on this machine. The configured name is used as it
/// is; otherwise the name is derived from whatever host name the system
/// reports, as [`instance_name_for`] says.
pub fn instance_name(config: &HostnameConfig) -> (n: String)
    ensures
        exists|machine: Option<Seq<char>>| n@ == instance_text(config.name, machine),
        config.name matches Some(name) ==> n@ == name@,
{
    let machine = machine_hostname();
    let ghost seen = opt_view(machine);
    let n = instance_name_for(config, machine);
    assert(n@ == instance_text(config.name, seen));
    n
}

// ---------------------------------------------------------------------------
// What the command says
// ---------------------------------------------------------------------------

/// The refusal when advertising is not turned on, naming the file to turn
/// it on in.
pub open spec fn disabled_text(path: Seq<char>) -> Seq<char> {
    "advertising is off. It publishes this machine's name, address and port to every device on the network, so it is off until you say otherwise.\n\nAdd this to "@
        + path + ":\n\n    [hostname]\n    enabled = true\n"@
}

/// The file a user should edit: the one named by `--config`, else the
/// default location, else a description of one.
pub open spec fn config_file_named(explicit: Option<String>, default: Option<String>) -> Seq<
    char,
> {
    match explicit {
        Some(p) => p@,
        None => match default {
            Some(p) => p@,
            None => "your config file"@,
        },
    }
}

/// Explain that advertising is off and where to turn it on. `default_path`
/// is the default configuration file's location, where there is one.
pub fn disabled(args: &GlobalArgs, default_path: Option<String>) -> (m: String)
    ensures
        m@ == disabled_text(config_file_named(args.config, default_path)),
{
    let mut out = owned(
        "advertising is off. It publishes this machine's name, address and port to every device on the network, so it is off until you say otherwise.\n\nAdd this to ",
    );
    match &args.config {
        Some(p) => push_str(&mut out, p.as_str()),
        None => match &default_path {
            Some(p) => push_str(&mut out, p.as_str()),
            None => push_str(&mut out, "your config file"),
        },
    }
    push_str(&mut out, ":\n\n    [hostname]\n    enabled = true\n");
    out
}

/// The refusal when there is no port to publish.
pub fn needs_port() -> (m: String)
    ensures
        m@
            == "advertise needs a port: pass --port, or set output.default_port. It is published in the service record, so a device that finds this machine knows what to open."@,
{
    owned(
        "advertise needs a port: pass --port, or set output.default_port. It is published in the service record, so a device that finds this machine knows what to open.",
    )
}

/// The host name a record points at: the instance name under `local.`.
pub fn host_name(name: &str) -> (h: String)
    ensures
        h@ == name@ + ".local."@,
{
    let mut h = owned(name);
    push_str(&mut h, ".local.");
    h
}

/// The block printed when the name is first published.
pub open spec fn published_text(
    colours: bool,
    name: Seq<char>,
    address: Seq<char>,
    service: Seq<char>,
    port: u16,
) -> Seq<char> {
    as_heading(colours, "Advertising"@) + " "@ + as_value(colours, name) + "\n"@ + "  "@
        + as_label(colours, "Address "@) + "  "@ + as_value(colours, address) + "\n"@ + "  "@
        + as_label(colours, "Service "@) + "  "@ + as_value(
        colours,
        service + " port "@ + decimal(port as nat),
    ) + "\n"@ + "  "@ + as_label(colours, "Open    "@) + "  "@ + as_value(
        colours,
        "http://"@ + name + ":"@ + decimal(port as nat),
    ) + "\n"@ + "\n"@ + as_muted(
        colours,
        "This machine is now discoverable on the local network. Ctrl-C to stop and withdraw the record."@,
    ) + "\n"@
}

/// The line printed when the name is re-announced at a new address.
pub open spec fn republished_text(
    colours: bool,
    name: Seq<char>,
    address: Seq<char>,
    why: Seq<char>,
) -> Seq<char> {
    as_heading(colours, "Re-advertised"@) + " "@ + as_value(colours, name) + " "@ + as_muted(
        colours,
        "\u{2192}"@,
    ) + " "@ + as_value(colours, address) + " ("@ + as_muted(colours, why) + ")\n"@
}

/// What `advertise` prints when the record is published at `address`:
/// the full block the first time (`initial`), and one line naming the new
/// address and why it moved (`reason`) each time after. `host` is the
/// record's host name; it is shown without its final dot.
pub fn published(
    theme: Theme,
    initial: bool,
    host: &str,
    address: &IpAddr,
    service: &str,
    port: u16,
    reason: Option<String>,
) -> (out: String)
    ensures
        out@ == (if initial {
            published_text(
                theme.colours(),
                without_trailing_dots(host@),
                address.text(),
                service@,
                port,
            )
        } else {
            republished_text(
                theme.colours(),
                without_trailing_dots(host@),
                address.text(),
                match reason {
                    Some(r) => r@,
                    None => "address changed"@,
                },
            )
        }),
{
    let end = trailing_dots_start(host);
    let mut name = String::new();
    push_range(&mut name, host, 0, end);
    let ip = address.to_text();
    let mut out = String::new();
    if initial {
        push_str(&mut out, theme.heading("Advertising").as_str());
        push_str(&mut out, " ");
        push_str(&mut out, theme.value(name.as_str()).as_str());
        push_str(&mut out, "\n  ");
        push_str(&mut out, theme.label("Address ").as_str());
        push_str(&mut out, "  ");
        push_str(&mut out, theme.value(ip.as_str()).as_str());
        push_str(&mut out, "\n  ");
        push_str(&mut out, theme.label("Service ").as_str());
        push_str(&mut out, "  ");
        let mut service_line = owned(service);
        push_str(&mut service_line, " port ");
        push_numeral(&mut service_line, port as u64, 10);
        push_str(&mut out, theme.value(service_line.as_str()).as_str());
        push_str(&mut out, "\n  ");
        push_str(&mut out, theme.label("Open    ").as_str());
        push_str(&mut out, "  ");
        let mut open = owned("http://");
        push_str(&mut open, name.as_str());
        push_str(&mut open, ":");
        push_numeral(&mut open, port as u64, 10);
        push_str(&mut out, theme.value(open.as_str()).as_str());
        push_str(&mut out, "\n\n");
        push_str(
            &mut out,
            theme.muted(
                "This machine is now discoverable on the local network. Ctrl-C to stop and withdraw the record.",
            ).as_str(),
        );
        push_str(&mut out, "\n");
    } else {
        push_str(&mut out, theme.heading("Re-advertised").as_str());
        push_str(&mut out, " ");
        push_str(&mut out, theme.value(name.as_str()).as_str());
        push_str(&mut out, " ");
        push_str(&mut out, theme.muted("\u{2192}").as_str());
        push_str(&mut out, " ");
        push_str(&mut out, theme.value(ip.as_str()).as_str());
        push_str(&mut out, " (");
        match &reason {
            Some(r) => push_str(&mut out, theme.muted(r.as_str()).as_str()),
            None => push_str(&mut out, theme.muted("address changed").as_str()),
        }
        push_str(&mut out, ")\n");
    }
    proof {
        reveal_strlit("\n  ");
        reveal_strlit("\n");
        reveal_strlit("  ");
        reveal_strlit("\n\n");
        reveal_strlit(" (");
        reveal_strlit(")\n");
    }
    assert(out@ =~= (if initial {
        published_text(
            theme.colours(),
            without_trailing_dots(host@),
            address.text(),
            service@,
            port,
        )
    } else {
        republished_text(
            theme.colours(),
            without_trailing_dots(host@),
            address.text(),
            match reason {
                Some(r) => r@,
                None => "address changed"@,
            },
        )
    }));
    out
}

/// What `advertise` prints when the record is withdrawn because no address
/// is left to point it at: nothing at startup, a line after.
pub fn withdrawn(theme: Theme, initial: bool) -> (line: Option<String>)
    ensures
        initial ==> line is None,
        !initial ==> (line matches Some(l) && l@ == as_warn(theme.colours(), "Withdrawn"@) + " "@
            + as_muted(
            theme.colours(),
            "no usable address; the name resolves to nothing until one returns"@,
        ) + "\n"@),
{
    if initial {
        return None;
    }
    let mut out = theme.warn("Withdrawn");
    push_str(&mut out, " ");
    push_str(
        &mut out,
        theme.muted("no usable address; the name resolves to nothing until one returns").as_str(),
    );
    push_str(&mut out, "\n");
    Some(out)
}

} // verus!
