//! What the read-only commands print and refuse: `status`, its `-v`
//! scoring breakdown, the `interfaces` table, and the checks made before
//! any of them runs. Taking the snapshot and writing to the terminal are the
//! program's business.

use vstd::prelude::*;

use crate::cli::args::{chosen_port, GlobalArgs};
use crate::cli::render::{
    as_bad, as_good, as_heading, as_label, as_muted, as_value, as_warn, cell_views, header_views, row_views,
    table, table_text, Theme,
};
use crate::cli::url::{local_url, loopback_host, network_url};
use crate::config::{Config, SelectionConfig};
use crate::model::{Interface, InterfaceState, NetworkState};
use crate::select::{
    failure_text, reason_view, reasons_view, url_text, Candidate, Selection, SelectedAddress,
};
use crate::text::{
    debug_quote, debug_quoted, decimal, owned, push_char, push_numeral, push_str, without_cr,
};

verus! {

// ---------------------------------------------------------------------------
// Checks made before a command runs
// ---------------------------------------------------------------------------

/// The names of the interfaces, separated by `, `.
pub open spec fn names_joined(ifaces: Seq<Interface>) -> Seq<char>
    decreases ifaces.len(),
{
    if ifaces.len() == 0 {
        Seq::empty()
    } else if ifaces.len() == 1 {
        ifaces[0].name@
    } else {
        names_joined(ifaces.drop_last()) + ", "@ + ifaces.last().name@
    }
}

/// The refusal for a `--interface` name the machine does not have.
pub open spec fn no_such_interface_text(name: Seq<char>, ifaces: Seq<Interface>) -> Seq<char> {
    "no interface named "@ + debug_quoted(name) + ". This machine has: "@ + names_joined(ifaces)
}

/// Reject a required interface the machine does not have, so that a typo
/// is reported as a typo and not as a network without usable addresses.
pub fn check_requested_interface(config: &SelectionConfig, state: &NetworkState) -> (r: Result<
    (),
    String,
>)
    ensures
        match config.require_interface {
            None => r is Ok,
            Some(name) => if exists|j: int|
                0 <= j < state.interfaces@.len() && (#[trigger] state.interfaces@[j]).name@
                    == name@ {
                r is Ok
            } else {
                r matches Err(m) && m@ == no_such_interface_text(name@, state.interfaces@)
            },
        },
{
    let name = match &config.require_interface {
        None => return Ok(()),
        Some(name) => name,
    };
    match state.interface_by_name(name.as_str()) {
        Some(p) => {
            assert(state.interfaces@[p as int].name@ == name@);
            return Ok(());
        },
        None => {},
    }
    let mut available = String::new();
    let mut i: usize = 0;
    while i < state.interfaces.len()
        invariant
            i <= state.interfaces@.len(),
            available@ == names_joined(state.interfaces@.subrange(0, i as int)),
        decreases state.interfaces@.len() - i,
    {
        let ghost before = state.interfaces@.subrange(0, i as int);
        let ghost after = state.interfaces@.subrange(0, i + 1);
        assert(after.drop_last() =~= before);
        if i > 0 {
            push_str(&mut available, ", ");
        } else {
            assert(available@ =~= Seq::<char>::empty());
        }
        push_str(&mut available, state.interfaces[i].name.as_str());
        i = i + 1;
    }
    assert(state.interfaces@.subrange(0, state.interfaces@.len() as int) =~= state.interfaces@);
    let mut m = owned("no interface named ");
    push_str(&mut m, debug_quote(name.as_str()).as_str());
    push_str(&mut m, ". This machine has: ");
    push_str(&mut m, available.as_str());
    Err(m)
}

/// The refusal of `--qr` together with `--json`.
pub open spec fn qr_with_json_text() -> Seq<char> {
    "--qr renders a QR code to the terminal, so it has no meaning with --json. The URL it would encode is already in that payload as urls.network."@
}

/// The refusal of `--qr` when there is no port to put in the URL.
pub open spec fn qr_needs_port_text() -> Seq<char> {
    "--qr needs a port: pass --port, or set output.default_port in your config file. A QR code is only useful if scanning it opens something, and a URL without a port does not."@
}

/// Refuse `--qr` where it cannot mean anything, before any work is done,
/// and otherwise give the port the code's URL is for.
pub fn check_qr_is_possible(args: &GlobalArgs, config: &Config) -> (r: Result<u16, String>)
    ensures
        args.json ==> (r matches Err(m) && m@ == qr_with_json_text()),
        !args.json ==> (chosen_port(args.port, config.output.default_port) is None ==> (r matches Err(
            m,
        ) && m@ == qr_needs_port_text())),
        !args.json ==> (chosen_port(args.port, config.output.default_port) matches Some(p) ==> r
            == Ok::<u16, String>(p)),
{
    if args.json {
        return Err(
            owned(
                "--qr renders a QR code to the terminal, so it has no meaning with --json. The URL it would encode is already in that payload as urls.network.",
            ),
        );
    }
    match args.port(config) {
        Some(port) => Ok(port),
        None => Err(
            owned(
                "--qr needs a port: pass --port, or set output.default_port in your config file. A QR code is only useful if scanning it opens something, and a URL without a port does not.",
            ),
        ),
    }
}

// ---------------------------------------------------------------------------
// Numbers as printed
// ---------------------------------------------------------------------------

/// An integer as `{}` prints it.
pub open spec fn int_text(d: int) -> Seq<char> {
    if d < 0 {
        seq!['-'] + decimal((-d) as nat)
    } else {
        decimal(d as nat)
    }
}

/// An integer as `{:+}` prints it: always signed.
pub open spec fn signed_text(d: int) -> Seq<char> {
    if d < 0 {
        seq!['-'] + decimal((-d) as nat)
    } else {
        seq!['+'] + decimal(d as nat)
    }
}

/// Append an integer as `{}` prints it.
pub fn push_int(out: &mut String, d: i32)
    ensures
        final(out)@ == old(out)@ + int_text(d as int),
{
    let ghost start = out@;
    if d < 0 {
        push_char(out, '-');
        let magnitude: i64 = -(d as i64);
        push_numeral(out, magnitude as u64, 10);
    } else {
        push_numeral(out, d as u64, 10);
    }
    assert(out@ =~= start + int_text(d as int));
}

/// Append an integer as `{:+}` prints it.
pub fn push_signed(out: &mut String, d: i32)
    ensures
        final(out)@ == old(out)@ + signed_text(d as int),
{
    let ghost start = out@;
    if d < 0 {
        push_char(out, '-');
        let magnitude: i64 = -(d as i64);
        push_numeral(out, magnitude as u64, 10);
    } else {
        push_char(out, '+');
        push_numeral(out, d as u64, 10);
    }
    assert(out@ =~= start + signed_text(d as int));
}

// ---------------------------------------------------------------------------
// The scoring breakdown
// ---------------------------------------------------------------------------

/// The rules a candidate scored by, as `rule +delta` separated by `, `.
pub open spec fn reasons_text(rules: Seq<(Seq<char>, int)>) -> Seq<char>
    decreases rules.len(),
{
    if rules.len() == 0 {
        Seq::empty()
    } else if rules.len() == 1 {
        rules[0].0 + " "@ + signed_text(rules[0].1)
    } else {
        reasons_text(rules.drop_last()) + ", "@ + rules.last().0 + " "@ + signed_text(
            rules.last().1,
        )
    }
}

/// What a candidate won or lost points for, as [`reasons_text`] says.
pub fn reasons(candidate: &Candidate) -> (s: String)
    ensures
        s@ == reasons_text(reasons_view(candidate.reasons@)),
{
    let ghost rules = reasons_view(candidate.reasons@);
    let mut out = String::new();
    let mut i: usize = 0;
    while i < candidate.reasons.len()
        invariant
            rules == reasons_view(candidate.reasons@),
            i <= candidate.reasons@.len(),
            out@ == reasons_text(rules.subrange(0, i as int)),
        decreases candidate.reasons@.len() - i,
    {
        let ghost before = rules.subrange(0, i as int);
        let ghost after = rules.subrange(0, i + 1);
        assert(after.drop_last() =~= before);
        assert(after.last() == reason_view(candidate.reasons@[i as int]));
        if i > 0 {
            push_str(&mut out, ", ");
        } else {
            assert(out@ =~= Seq::<char>::empty());
        }
        let r = &candidate.reasons[i];
        push_str(&mut out, r.rule);
        push_str(&mut out, " ");
        push_signed(&mut out, r.delta);
        assert(out@ =~= reasons_text(after));
        i = i + 1;
    }
    assert(rules.subrange(0, candidate.reasons@.len() as int) =~= rules);
    out
}

/// What the lines of a text come to once split as `str::lines` does:
/// the text so far, and the line being read.
pub open spec fn indent_state(s: Seq<char>) -> (Seq<char>, Seq<char>)
    decreases s.len(),
{
    if s.len() == 0 {
        (Seq::empty(), Seq::empty())
    } else {
        let (done, line) = indent_state(s.drop_last());
        if s.last() == '\n' {
            (done + "  "@ + without_cr(line) + "\n"@, Seq::empty())
        } else {
            (done, line.push(s.last()))
        }
    }
}

/// Every line of `s` indented by two spaces and ended with a newline; a
/// last line without a newline counts, an empty one after the last
/// newline does not.
pub open spec fn indented(s: Seq<char>) -> Seq<char> {
    let (done, line) = indent_state(s);
    if line.len() > 0 {
        done + "  "@ + line + "\n"@
    } else {
        done
    }
}

/// Indent every line of `text` by two spaces, as [`indented`] says.
pub fn indent(text: &str) -> (out: String)
    ensures
        out@ == indented(text@),
{
    let n = text.unicode_len();
    let mut done = String::new();
    let mut line = String::new();
    let mut i: usize = 0;
    while i < n
        invariant
            n == text@.len(),
            i <= n,
            (done@, line@) == indent_state(text@.subrange(0, i as int)),
        decreases n - i,
    {
        let c = text.get_char(i);
        let ghost prefix = text@.subrange(0, i + 1);
        assert(prefix.drop_last() =~= text@.subrange(0, i as int));
        if c == '\n' {
            push_str(&mut done, "  ");
            let k = line.unicode_len();
            if k > 0 && line.get_char(k - 1) == '\r' {
                let mut body = String::new();
                crate::text::push_range(&mut body, line.as_str(), 0, k - 1);
                assert(body@ =~= line@.drop_last());
                push_str(&mut done, body.as_str());
            } else {
                push_str(&mut done, line.as_str());
            }
            push_str(&mut done, "\n");
            line = String::new();
        } else {
            push_char(&mut line, c);
        }
        i = i + 1;
    }
    assert(text@.subrange(0, n as int) =~= text@);
    if line.unicode_len() > 0 {
        push_str(&mut done, "  ");
        push_str(&mut done, line.as_str());
        push_str(&mut done, "\n");
    }
    done
}

/// The candidates still in the running, in order.
pub open spec fn eligible_of(cands: Seq<Candidate>) -> Seq<Candidate> {
    cands.filter(|c: Candidate| c.disqualified is None)
}

/// The candidates that were disqualified, in order.
pub open spec fn rejected_of(cands: Seq<Candidate>) -> Seq<Candidate> {
    cands.filter(|c: Candidate| c.disqualified is Some)
}

/// The cells of a candidate's row in the `Considered` table.
pub open spec fn considered_cells(c: Candidate) -> Seq<Seq<char>> {
    seq![
        c.interface@,
        c.address.ip.text(),
        int_text(c.score as int),
        reasons_text(reasons_view(c.reasons@)),
    ]
}

/// The cells of a candidate's row in the `Rejected` table.
pub open spec fn rejected_cells(c: Candidate) -> Seq<Seq<char>> {
    seq![
        c.interface@,
        c.address.ip.text(),
        match c.disqualified {
            Some(d) => d.text(),
            None => Seq::empty(),
        },
    ]
}

/// The rows of the `Considered` table for these candidates.
pub open spec fn considered_rows(cands: Seq<Candidate>) -> Seq<Seq<Seq<char>>> {
    cands.map_values(|c: Candidate| considered_cells(c))
}

/// The rows of the `Rejected` table for these candidates.
pub open spec fn rejected_rows(cands: Seq<Candidate>) -> Seq<Seq<Seq<char>>> {
    cands.map_values(|c: Candidate| rejected_cells(c))
}

/// The header row of the `Considered` table.
pub open spec fn considered_headers() -> Seq<Seq<char>> {
    seq!["INTERFACE"@, "ADDRESS"@, "SCORE"@, "WHY"@]
}

/// The header row of the `Rejected` table.
pub open spec fn rejected_headers() -> Seq<Seq<char>> {
    seq!["INTERFACE"@, "ADDRESS"@, "REASON"@]
}

/// The scoring breakdown: a `Considered` table of the candidates still in
/// the running, with their scores and the rules behind them, then a
/// `Rejected` table of the rest with the reason each was dropped. A table
/// with no rows is left out.
pub open spec fn candidate_table_text(cands: Seq<Candidate>, colours: bool) -> Seq<char> {
    let eligible = eligible_of(cands);
    let rejected = rejected_of(cands);
    let first = if eligible.len() > 0 {
        as_heading(colours, "  Considered"@) + "\n"@ + indented(
            table_text(
                considered_headers(),
                considered_rows(eligible),
                colours,
            ),
        )
    } else {
        Seq::empty()
    };
    let second = if rejected.len() > 0 {
        (if first.len() > 0 {
            "\n"@
        } else {
            Seq::<char>::empty()
        }) + as_heading(colours, "  Rejected"@) + "\n"@ + indented(
            table_text(
                rejected_headers(),
                rejected_rows(rejected),
                colours,
            ),
        )
    } else {
        Seq::empty()
    };
    first + second
}

/// The rows of one of the two tables, built from the candidates that
/// `keep_rejected` picks.
fn table_rows(cands: &Vec<Candidate>, keep_rejected: bool) -> (rows: Vec<Vec<String>>)
    ensures
        !keep_rejected ==> row_views(rows@) == considered_rows(eligible_of(cands@)),
        keep_rejected ==> row_views(rows@) == rejected_rows(rejected_of(cands@)),
{
    let mut rows: Vec<Vec<String>> = Vec::new();
    let mut i: usize = 0;
    while i < cands.len()
        invariant
            i <= cands@.len(),
            !keep_rejected ==> row_views(rows@) == considered_rows(eligible_of(cands@.subrange(0, i as int))),
            keep_rejected ==> row_views(rows@) == rejected_rows(rejected_of(cands@.subrange(0, i as int))),
        decreases cands@.len() - i,
    {
        let c = &cands[i];
        let ghost upto = cands@.subrange(0, i as int);
        let ghost next = cands@.subrange(0, i + 1);
        assert(next =~= upto.push(cands@[i as int]));
        proof {
            lemma_filter_push_eligible(upto, cands@[i as int]);
        }
        if keep_rejected {
            match c.disqualified {
                Some(d) => {
                    let mut row: Vec<String> = Vec::new();
                    row.push(owned(c.interface.as_str()));
                    row.push(c.address.ip.to_text());
                    row.push(d.to_text());
                    let ghost cells = rejected_cells(cands@[i as int]);
                    assert(cell_views(row) =~= cells);
                    let ghost old_rows = rows@;
                    rows.push(row);
                    proof {
                        lemma_rows_push(old_rows, row);
                        lemma_candidate_rows_push(rejected_of(upto), cands@[i as int]);
                    }
                },
                None => {
                    assert(rejected_of(next) =~= rejected_of(upto));
                },
            }
        } else {
            match c.disqualified {
                None => {
                    let mut row: Vec<String> = Vec::new();
                    row.push(owned(c.interface.as_str()));
                    row.push(c.address.ip.to_text());
                    let mut score = String::new();
                    push_int(&mut score, c.score);
                    assert(score@ =~= int_text(c.score as int));
                    row.push(score);
                    row.push(reasons(c));
                    let ghost cells = considered_cells(cands@[i as int]);
                    assert(cell_views(row) =~= cells);
                    let ghost old_rows = rows@;
                    rows.push(row);
                    proof {
                        lemma_rows_push(old_rows, row);
                        lemma_candidate_rows_push(eligible_of(upto), cands@[i as int]);
                    }
                },
                Some(_) => {
                    assert(eligible_of(next) =~= eligible_of(upto));
                },
            }
        }
        i = i + 1;
    }
    assert(cands@.subrange(0, cands@.len() as int) =~= cands@);
    rows
}

/// One more row, seen as characters.
proof fn lemma_rows_push(rows: Seq<Vec<String>>, r: Vec<String>)
    ensures
        row_views(rows.push(r)) == row_views(rows).push(cell_views(r)),
{
    assert(row_views(rows.push(r)) =~= row_views(rows).push(cell_views(r)));
}

/// One more candidate, in either table's rows.
proof fn lemma_candidate_rows_push(s: Seq<Candidate>, c: Candidate)
    ensures
        considered_rows(s.push(c)) == considered_rows(s).push(considered_cells(c)),
        rejected_rows(s.push(c)) == rejected_rows(s).push(rejected_cells(c)),
{
    assert(considered_rows(s.push(c)) =~= considered_rows(s).push(considered_cells(c)));
    assert(rejected_rows(s.push(c)) =~= rejected_rows(s).push(rejected_cells(c)));
}

/// Filtering a sequence with one more candidate at its end.
proof fn lemma_filter_push_eligible(s: Seq<Candidate>, c: Candidate)
    ensures
        eligible_of(s.push(c)) == (if c.disqualified is None {
            eligible_of(s).push(c)
        } else {
            eligible_of(s)
        }),
        rejected_of(s.push(c)) == (if c.disqualified is Some {
            rejected_of(s).push(c)
        } else {
            rejected_of(s)
        }),
{
    reveal_with_fuel(Seq::<Candidate>::filter, 1);
    assert(s.push(c).drop_last() =~= s);
    assert(s.push(c).last() == c);
}

/// The scoring breakdown, as [`candidate_table_text`] says: the honesty
/// check on the whole design, showing which rule caused a surprising
/// choice.
pub fn candidate_table(selection: &Selection, theme: Theme) -> (out: String)
    ensures
        out@ == candidate_table_text(selection.candidates@, theme.colours()),
{
    let mut out = String::new();
    let eligible = table_rows(&selection.candidates, false);
    if eligible.len() > 0 {
        push_str(&mut out, theme.heading("  Considered").as_str());
        push_str(&mut out, "\n");
        let headers = ["INTERFACE", "ADDRESS", "SCORE", "WHY"];
        proof {
            reveal_strlit("INTERFACE");
            reveal_strlit("ADDRESS");
            reveal_strlit("SCORE");
            reveal_strlit("WHY");
        }
        assert(header_views(headers@) =~= considered_headers());
        let t = table(&headers, eligible.as_slice(), theme);
        push_str(&mut out, indent(t.as_str()).as_str());
    }
    let ghost first = out@;
    let rejected = table_rows(&selection.candidates, true);
    if rejected.len() > 0 {
        if out.unicode_len() > 0 {
            push_str(&mut out, "\n");
        }
        push_str(&mut out, theme.heading("  Rejected").as_str());
        push_str(&mut out, "\n");
        let headers = ["INTERFACE", "ADDRESS", "REASON"];
        proof {
            reveal_strlit("INTERFACE");
            reveal_strlit("ADDRESS");
            reveal_strlit("REASON");
        }
        assert(header_views(headers@) =~= rejected_headers());
        let t = table(&headers, rejected.as_slice(), theme);
        push_str(&mut out, indent(t.as_str()).as_str());
    }
    proof {
        reveal_strlit("\n");
    }
    assert(out@ =~= candidate_table_text(selection.candidates@, theme.colours()));
    out
}

// ---------------------------------------------------------------------------
// status
// ---------------------------------------------------------------------------

/// The state of the interface named `name`, as printed, or `?` where the
/// snapshot has no such interface.
pub open spec fn state_of_named(ifaces: Seq<Interface>, name: Seq<char>) -> Seq<char> {
    if exists|j: int| 0 <= j < ifaces.len() && (#[trigger] ifaces[j]).name@ == name {
        ifaces[choose|j: int| 0 <= j < ifaces.len() && (#[trigger] ifaces[j]).name@ == name
            && forall|i: int| 0 <= i < j ==> (#[trigger] ifaces[i]).name@ != name].state.text()
    } else {
        "?"@
    }
}

/// One `status` field: indented label, two spaces, the value, newline.
pub open spec fn field_line(colours: bool, label: Seq<char>, value: Seq<char>) -> Seq<char> {
    "  "@ + as_label(colours, label) + "  "@ + value + "\n"@
}

/// The interface a selected address is on: its name, kind and state.
pub open spec fn interface_detail(s: SelectedAddress, ifaces: Seq<Interface>) -> Seq<char> {
    s.interface@ + " ("@ + s.interface_kind@.text() + ", "@ + state_of_named(ifaces, s.interface@)
        + ")"@
}

/// The two URL lines `status` adds when a port is known.
pub open spec fn url_lines(colours: bool, s: SelectedAddress, port: u16) -> Seq<char> {
    "\n"@ + field_line(colours, "Local    "@, url_text("http"@, loopback_host(s.family), port))
        + field_line(
        colours,
        "Network  "@,
        as_value(colours, url_text("http"@, s.ip.url_text(), port)) + "  "@ + as_muted(
            colours,
            "\u{2190} open this from another device"@,
        ),
    )
}

/// The lines `status` prints for a selected address.
pub open spec fn selected_lines(
    colours: bool,
    s: SelectedAddress,
    ifaces: Seq<Interface>,
    port: Option<u16>,
) -> Seq<char> {
    field_line(colours, "Address  "@, as_value(colours, s.ip.text() + "/"@ + decimal(s.prefix_len as nat)))
        + field_line(colours, "Interface"@, interface_detail(s, ifaces)) + (match s.gateway {
        Some(g) => field_line(colours, "Gateway  "@, g.text()),
        None => Seq::empty(),
    }) + field_line(colours, "Scope    "@, s.scope.text()) + (match port {
        Some(p) => url_lines(colours, s, p),
        None => Seq::empty(),
    })
}

/// The heading `status` opens with: the tool and the platform backend.
pub open spec fn heading_text(colours: bool, platform: Seq<char>) -> Seq<char> {
    as_heading(colours, "AutoNet"@) + " "@ + as_muted(colours, platform) + "\n\n"@
}

/// What `status` says when nothing was selected: why not.
pub open spec fn no_address_text(colours: bool, why: Seq<char>) -> Seq<char> {
    "  "@ + as_bad(colours, "No usable address."@) + " "@ + why + "\n"@
}

/// What `status` prints: the heading and platform, then the selected
/// address with its interface, gateway, scope and, given a port, the URLs
/// to open here and from another device; or, with nothing selected, why
/// not. With `-v`, the scoring breakdown follows.
pub open spec fn status_text_of(
    colours: bool,
    platform: Seq<char>,
    port: Option<u16>,
    verbose: bool,
    state: NetworkState,
    selection: Selection,
    config: SelectionConfig,
) -> Seq<char> {
    heading_text(colours, platform) + (match selection.selected {
        Some(s) => selected_lines(colours, s, state.interfaces@, port),
        None => no_address_text(colours, failure_text(selection.candidates@, config)),
    }) + (if verbose {
        "\n"@ + candidate_table_text(selection.candidates@, colours)
    } else {
        Seq::empty()
    })
}

/// The text `status` prints, as [`status_text_of`] says; the port is the
/// one [`GlobalArgs::port`] gives.
#[verifier::rlimit(40)]
#[verifier::spinoff_prover]
pub fn status_text(
    theme: Theme,
    platform: &str,
    args: &GlobalArgs,
    config: &Config,
    state: &NetworkState,
    selection: &Selection,
) -> (out: String)
    ensures
        out@ == status_text_of(
            theme.colours(),
            platform@,
            chosen_port(args.port, config.output.default_port),
            args.verbose,
            *state,
            *selection,
            config.selection,
        ),
{
    let mut out = theme.heading("AutoNet");
    push_str(&mut out, " ");
    push_str(&mut out, theme.muted(platform).as_str());
    push_str(&mut out, "\n\n");
    assert(out@ =~= heading_text(theme.colours(), platform@));
    let port = args.port(config);
    let body = match &selection.selected {
        Some(s) => selected_block(theme, s, state, port),
        None => {
            let mut b = owned("  ");
            push_str(&mut b, theme.bad("No usable address.").as_str());
            push_str(&mut b, " ");
            push_str(&mut b, selection.failure_reason(&config.selection).as_str());
            push_str(&mut b, "\n");
            assert(b@ =~= no_address_text(
                theme.colours(),
                failure_text(selection.candidates@, config.selection),
            ));
            b
        },
    };
    push_str(&mut out, body.as_str());
    if args.verbose {
        push_str(&mut out, "\n");
        push_str(&mut out, candidate_table(selection, theme).as_str());
    }
    assert(out@ =~= status_text_of(
        theme.colours(),
        platform@,
        port,
        args.verbose,
        *state,
        *selection,
        config.selection,
    ));
    out
}

/// The state of the interface named `name`, as [`state_of_named`] says.
fn named_state(state: &NetworkState, name: &str) -> (s: String)
    ensures
        s@ == state_of_named(state.interfaces@, name@),
{
    match state.interface_by_name(name) {
        Some(p) => {
            let ghost ifaces = state.interfaces@;
            assert(0 <= p < ifaces.len() && ifaces[p as int].name@ == name@);
            let ghost j = choose|j: int|
                0 <= j < ifaces.len() && (#[trigger] ifaces[j]).name@ == name@ && forall|i: int|
                    0 <= i < j ==> (#[trigger] ifaces[i]).name@ != name@;
            assert(j == p) by {
                if j < p {
                    assert(ifaces[j].name@ != name@);
                } else if j > p {
                    assert(ifaces[p as int].name@ != name@);
                }
            }
            owned(state.interfaces[p].state.as_str())
        },
        None => owned("?"),
    }
}

/// Append one `status` field, as [`field_line`] says.
fn push_field(out: &mut String, theme: Theme, label: &str, value: &str)
    ensures
        final(out)@ == old(out)@ + field_line(theme.colours(), label@, value@),
{
    let ghost start = out@;
    push_str(out, "  ");
    push_str(out, theme.label(label).as_str());
    push_str(out, "  ");
    push_str(out, value);
    push_str(out, "\n");
    assert(out@ =~= start + field_line(theme.colours(), label@, value@));
}

/// The interface detail, as [`interface_detail`] says.
fn detail_of(s: &SelectedAddress, state: &NetworkState) -> (d: String)
    ensures
        d@ == interface_detail(*s, state.interfaces@),
{
    let mut d = owned(s.interface.as_str());
    push_str(&mut d, " (");
    s.interface_kind.push_text(&mut d);
    push_str(&mut d, ", ");
    push_str(&mut d, named_state(state, s.interface.as_str()).as_str());
    push_str(&mut d, ")");
    assert(d@ =~= interface_detail(*s, state.interfaces@));
    d
}

/// The URL lines, as [`url_lines`] says.
fn urls_of(theme: Theme, s: &SelectedAddress, port: u16) -> (u: String)
    ensures
        u@ == url_lines(theme.colours(), *s, port),
{
    let mut u = owned("\n");
    push_field(&mut u, theme, "Local    ", local_url(s.family, port).as_str());
    let mut network = theme.value(network_url(s, port, None).as_str());
    push_str(&mut network, "  ");
    push_str(&mut network, theme.muted("\u{2190} open this from another device").as_str());
    push_field(&mut u, theme, "Network  ", network.as_str());
    assert(u@ =~= url_lines(theme.colours(), *s, port));
    u
}

/// The lines for a selected address, as [`selected_lines`] says.
fn selected_block(theme: Theme, s: &SelectedAddress, state: &NetworkState, port: Option<u16>) -> (out: String)
    ensures
        out@ == selected_lines(theme.colours(), *s, state.interfaces@, port),
{
    let mut address = s.ip.to_text();
    push_str(&mut address, "/");
    push_numeral(&mut address, s.prefix_len as u64, 10);
    let mut out = String::new();
    push_field(&mut out, theme, "Address  ", theme.value(address.as_str()).as_str());
    push_field(&mut out, theme, "Interface", detail_of(s, state).as_str());
    let ghost upto = out@;
    match s.gateway {
        Some(g) => push_field(&mut out, theme, "Gateway  ", g.to_text().as_str()),
        None => {},
    }
    let ghost gateway = out@;
    push_field(&mut out, theme, "Scope    ", s.scope.as_str());
    let ghost scope = out@;
    match port {
        Some(p) => push_str(&mut out, urls_of(theme, s, p).as_str()),
        None => {},
    }
    assert(out@ =~= selected_lines(theme.colours(), *s, state.interfaces@, port));
    out
}

// ---------------------------------------------------------------------------
// interfaces
// ---------------------------------------------------------------------------

/// An interface's state as its table cell shows it: green when up, dim
/// when down, yellow otherwise.
pub open spec fn state_cell_text(colours: bool, state: InterfaceState) -> Seq<char> {
    match state {
        InterfaceState::Up => as_good(colours, state.text()),
        InterfaceState::Down => as_muted(colours, state.text()),
        _ => as_warn(colours, state.text()),
    }
}

/// The state cell, as [`state_cell_text`] says.
pub fn state_cell(interface: &Interface, theme: Theme) -> (s: String)
    ensures
        s@ == state_cell_text(theme.colours(), interface.state),
{
    let text = interface.state.as_str();
    match interface.state {
        InterfaceState::Up => theme.good(text),
        InterfaceState::Down => theme.muted(text),
        _ => theme.warn(text),
    }
}

/// The addresses of an interface, each as `ip/prefix`, separated by `, `.
pub open spec fn addresses_joined(addrs: Seq<crate::model::Address>) -> Seq<char>
    decreases addrs.len(),
{
    if addrs.len() == 0 {
        Seq::empty()
    } else if addrs.len() == 1 {
        addrs[0].text()
    } else {
        addresses_joined(addrs.drop_last()) + ", "@ + addrs.last().text()
    }
}

/// The cells of an interface's row: index, name, kind, state, the hardware
/// address under `-v` (a dash where there is none), then its addresses or
/// a dim dash.
pub open spec fn interface_cells(i: Interface, verbose: bool, colours: bool) -> Seq<Seq<char>> {
    let addresses = if i.addresses@.len() == 0 {
        as_muted(colours, "\u{2014}"@)
    } else {
        addresses_joined(i.addresses@)
    };
    let head = seq![
        decimal(i.index as nat),
        i.name@,
        i.kind@.text(),
        state_cell_text(colours, i.state),
    ];
    if verbose {
        head.push(
            match i.mac {
                Some(m) => m@,
                None => "\u{2014}"@,
            },
        ).push(addresses)
    } else {
        head.push(addresses)
    }
}

/// The rows of the `interfaces` table.
pub open spec fn interface_rows(ifaces: Seq<Interface>, verbose: bool, colours: bool) -> Seq<
    Seq<Seq<char>>,
> {
    ifaces.map_values(|i: Interface| interface_cells(i, verbose, colours))
}

/// The header row of the `interfaces` table.
pub open spec fn interface_headers(verbose: bool) -> Seq<Seq<char>> {
    if verbose {
        seq!["IDX"@, "NAME"@, "KIND"@, "STATE"@, "MAC"@, "ADDRESSES"@]
    } else {
        seq!["IDX"@, "NAME"@, "KIND"@, "STATE"@, "ADDRESSES"@]
    }
}

/// The addresses of an interface, as [`addresses_joined`] says.
fn joined_addresses(i: &Interface) -> (s: String)
    ensures
        s@ == addresses_joined(i.addresses@),
{
    let mut out = String::new();
    let mut k: usize = 0;
    while k < i.addresses.len()
        invariant
            k <= i.addresses@.len(),
            out@ == addresses_joined(i.addresses@.subrange(0, k as int)),
        decreases i.addresses@.len() - k,
    {
        let ghost after = i.addresses@.subrange(0, k + 1);
        assert(after.drop_last() =~= i.addresses@.subrange(0, k as int));
        if k > 0 {
            push_str(&mut out, ", ");
        } else {
            assert(out@ =~= Seq::<char>::empty());
        }
        i.addresses[k].push_text(&mut out);
        k = k + 1;
    }
    assert(i.addresses@.subrange(0, i.addresses@.len() as int) =~= i.addresses@);
    out
}

/// The `interfaces` table: every interface the machine has, classified.
pub fn interfaces_table(state: &NetworkState, verbose: bool, theme: Theme) -> (out: String)
    ensures
        out@ == table_text(
            interface_headers(verbose),
            interface_rows(state.interfaces@, verbose, theme.colours()),
            theme.colours(),
        ),
{
    let ghost colours = theme.colours();
    let mut rows: Vec<Vec<String>> = Vec::new();
    let mut k: usize = 0;
    while k < state.interfaces.len()
        invariant
            k <= state.interfaces@.len(),
            colours == theme.colours(),
            row_views(rows@) == interface_rows(state.interfaces@.subrange(0, k as int), verbose, colours),
        decreases state.interfaces@.len() - k,
    {
        let interface = &state.interfaces[k];
        let addresses = if interface.addresses.len() == 0 {
            theme.muted("\u{2014}")
        } else {
            joined_addresses(interface)
        };
        let mut index = String::new();
        push_numeral(&mut index, interface.index as u64, 10);
        let mut row: Vec<String> = Vec::new();
        row.push(index);
        row.push(owned(interface.name.as_str()));
        row.push(interface.kind.to_text());
        row.push(state_cell(interface, theme));
        if verbose {
            match &interface.mac {
                Some(m) => row.push(owned(m.as_str())),
                None => row.push(owned("\u{2014}")),
            }
        }
        row.push(addresses);
        let ghost cells = interface_cells(state.interfaces@[k as int], verbose, colours);
        assert(cell_views(row) =~= cells);
        let ghost old_rows = rows@;
        rows.push(row);
        let ghost upto = state.interfaces@.subrange(0, k as int);
        assert(state.interfaces@.subrange(0, k + 1) =~= upto.push(state.interfaces@[k as int]));
        proof {
            lemma_rows_push(old_rows, row);
            assert(interface_rows(upto.push(state.interfaces@[k as int]), verbose, colours)
                =~= interface_rows(upto, verbose, colours).push(cells));
        }
        k = k + 1;
    }
    assert(state.interfaces@.subrange(0, state.interfaces@.len() as int) =~= state.interfaces@);
    if verbose {
        let headers = ["IDX", "NAME", "KIND", "STATE", "MAC", "ADDRESSES"];
        proof {
            reveal_strlit("IDX");
            reveal_strlit("NAME");
            reveal_strlit("KIND");
            reveal_strlit("STATE");
            reveal_strlit("MAC");
            reveal_strlit("ADDRESSES");
        }
        assert(header_views(headers@) =~= interface_headers(verbose));
        table(&headers, rows.as_slice(), theme)
    } else {
        let headers = ["IDX", "NAME", "KIND", "STATE", "ADDRESSES"];
        proof {
            reveal_strlit("IDX");
            reveal_strlit("NAME");
            reveal_strlit("KIND");
            reveal_strlit("STATE");
            reveal_strlit("ADDRESSES");
        }
        assert(header_views(headers@) =~= interface_headers(verbose));
        table(&headers, rows.as_slice(), theme)
    }
}

/// An interface as `interfaces --json` shows it: the hardware address is
/// withheld unless it was asked for with `-v`.
pub fn redact(interface: &Interface, verbose: bool) -> (r: Interface)
    ensures
        r.name@ == interface.name@,
        r.index == interface.index,
        r.kind == interface.kind,
        r.state == interface.state,
        r.flags == interface.flags,
        r.mtu == interface.mtu,
        r.addresses@ == interface.addresses@,
        verbose ==> (match interface.mac {
            Some(m) => r.mac matches Some(n) && n@ == m@,
            None => r.mac is None,
        }),
        !verbose ==> r.mac is None,
{
    let mut addresses: Vec<crate::model::Address> = Vec::new();
    let mut k: usize = 0;
    while k < interface.addresses.len()
        invariant
            k <= interface.addresses@.len(),
            addresses@ == interface.addresses@.subrange(0, k as int),
        decreases interface.addresses@.len() - k,
    {
        addresses.push(interface.addresses[k]);
        assert(addresses@ =~= interface.addresses@.subrange(0, k + 1));
        k = k + 1;
    }
    assert(interface.addresses@.subrange(0, interface.addresses@.len() as int)
        =~= interface.addresses@);
    let mac = if verbose {
        match &interface.mac {
            Some(m) => Some(owned(m.as_str())),
            None => None,
        }
    } else {
        None
    };
    Interface {
        name: owned(interface.name.as_str()),
        index: interface.index,
        kind: interface.kind.clone(),
        state: interface.state,
        flags: interface.flags,
        mac,
        mtu: interface.mtu,
        addresses,
    }
}

} // verus!
