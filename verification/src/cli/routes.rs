//! `autonet routes`: the routing table in a stable, useful order, default
//! routes first, and the table it is printed as.

use vstd::prelude::*;

use crate::cli::render::{
    as_muted, as_value, cell_views, header_views, row_views, table, table_text, Theme,
};
use crate::model::{Family, Interface, NetworkState, Route};
use crate::text::{decimal, owned, push_numeral, push_str};

verus! {

// ---------------------------------------------------------------------------
// The order
// ---------------------------------------------------------------------------

/// Whether `a` sorts before `b` character by character, a proper prefix
/// first: the order of Rust's `String`.
pub open spec fn text_lt(a: Seq<char>, b: Seq<char>) -> bool
    decreases a.len(),
{
    if a.len() == 0 {
        b.len() > 0
    } else if b.len() == 0 {
        false
    } else if a[0] != b[0] {
        a[0] < b[0]
    } else {
        text_lt(a.drop_first(), b.drop_first())
    }
}

/// The destination a route is ordered by: none for a default route, which
/// sorts first among equals, else its `addr/prefix` text.
pub open spec fn destination_key(r: Route) -> Option<Seq<char>> {
    match r.destination {
        Some(d) => Some(d.text()),
        None => None,
    }
}

/// Whether route `a` sorts strictly before `b`: default routes first, then
/// by family (IPv4 first), interface index, metric, and destination.
pub open spec fn route_lt(a: Route, b: Route) -> bool {
    if a.spec_is_default() != b.spec_is_default() {
        a.spec_is_default()
    } else if a.family != b.family {
        a.family == Family::V4
    } else if a.interface_index != b.interface_index {
        a.interface_index < b.interface_index
    } else if a.metric != b.metric {
        a.metric < b.metric
    } else {
        match destination_key(a) {
            None => destination_key(b) is Some,
            Some(x) => match destination_key(b) {
                None => false,
                Some(y) => text_lt(x, y),
            },
        }
    }
}

/// Whether two routes tie in that order.
pub open spec fn route_tie(a: Route, b: Route) -> bool {
    !route_lt(a, b) && !route_lt(b, a)
}

/// Whether `a` sorts before `b`, as [`text_lt`] says.
fn less_text(a: &str, b: &str) -> (r: bool)
    ensures
        r == text_lt(a@, b@),
{
    let n = a.unicode_len();
    let m = b.unicode_len();
    let mut i: usize = 0;
    assert(a@.subrange(0, n as int) =~= a@);
    assert(b@.subrange(0, m as int) =~= b@);
    while i < n && i < m && a.get_char(i) == b.get_char(i)
        invariant
            n == a@.len(),
            m == b@.len(),
            i <= n,
            i <= m,
            text_lt(a@, b@) == text_lt(a@.subrange(i as int, n as int), b@.subrange(i as int, m as int)),
        decreases n - i,
    {
        let ghost x = a@.subrange(i as int, n as int);
        let ghost y = b@.subrange(i as int, m as int);
        assert(x.drop_first() =~= a@.subrange(i + 1, n as int));
        assert(y.drop_first() =~= b@.subrange(i + 1, m as int));
        i = i + 1;
    }
    if i == n {
        i < m
    } else if i == m {
        false
    } else {
        a.get_char(i) < b.get_char(i)
    }
}

/// A route's destination text, where it has one.
fn destination_text(r: &Route) -> (t: Option<String>)
    ensures
        match destination_key(*r) {
            Some(x) => t matches Some(s) && s@ == x,
            None => t is None,
        },
{
    match r.destination {
        Some(d) => {
            let mut s = String::new();
            d.push_text(&mut s);
            Some(s)
        },
        None => None,
    }
}

/// Whether route `a` sorts strictly before `b`, as [`route_lt`] says.
pub fn route_less(a: &Route, b: &Route) -> (r: bool)
    ensures
        r == route_lt(*a, *b),
{
    let da = a.is_default();
    let db = b.is_default();
    if da != db {
        return da;
    }
    let fa = match a.family {
        Family::V4 => 0u8,
        Family::V6 => 1u8,
    };
    let fb = match b.family {
        Family::V4 => 0u8,
        Family::V6 => 1u8,
    };
    if fa != fb {
        return fa == 0;
    }
    if a.interface_index != b.interface_index {
        return a.interface_index < b.interface_index;
    }
    if a.metric != b.metric {
        return a.metric < b.metric;
    }
    match destination_text(a) {
        None => b.destination.is_some(),
        Some(x) => match destination_text(b) {
            None => false,
            Some(y) => less_text(x.as_str(), y.as_str()),
        },
    }
}

/// Whether `perm` lays out positions of a sequence of length `n`: each
/// position at most once.
pub open spec fn is_arrangement(perm: Seq<int>, n: int) -> bool {
    &&& perm.len() == n
    &&& forall|a: int| 0 <= a < n ==> 0 <= #[trigger] perm[a] < n
    &&& forall|a: int, b: int| 0 <= a < b < n ==> perm[a] != perm[b]
}

/// Whether `out` is `input` rearranged by `perm`, sorted by [`route_lt`],
/// with tied routes in their original order.
pub open spec fn stably_sorted(input: Seq<Route>, out: Seq<Route>, perm: Seq<int>) -> bool {
    &&& out.len() == input.len()
    &&& is_arrangement(perm, input.len() as int)
    &&& forall|a: int| 0 <= a < out.len() ==> #[trigger] out[a] == input[perm[a]]
    &&& forall|a: int, b: int| 0 <= a < b < out.len() ==> !route_lt(out[b], out[a])
    &&& forall|a: int, b: int|
        0 <= a < b < out.len() && route_tie(out[a], out[b]) ==> perm[a] < perm[b]
}

/// The route order is a strict weak order: ties are transitive and
/// strictness carries across them.
proof fn lemma_text_lt_total(a: Seq<char>, b: Seq<char>)
    ensures
        a != b ==> (text_lt(a, b) || text_lt(b, a)),
        !(text_lt(a, b) && text_lt(b, a)),
    decreases a.len(),
{
    if a.len() > 0 && b.len() > 0 && a[0] == b[0] {
        lemma_text_lt_total(a.drop_first(), b.drop_first());
        if a != b {
            assert(a.drop_first() != b.drop_first()) by {
                if a.drop_first() == b.drop_first() {
                    assert(a =~= seq![a[0]] + a.drop_first());
                    assert(b =~= seq![b[0]] + b.drop_first());
                }
            }
        }
    } else if a.len() == 0 && b.len() == 0 {
        assert(a =~= b);
    }
}

/// The text order is transitive.
proof fn lemma_text_lt_transitive(a: Seq<char>, b: Seq<char>, c: Seq<char>)
    requires
        text_lt(a, b),
        text_lt(b, c),
    ensures
        text_lt(a, c),
    decreases a.len(),
{
    if a.len() > 0 && b.len() > 0 && c.len() > 0 && a[0] == b[0] && b[0] == c[0] {
        lemma_text_lt_transitive(a.drop_first(), b.drop_first(), c.drop_first());
    }
}

/// Routes that tie have the same key; the route order is transitive.
proof fn lemma_route_order(a: Route, b: Route, c: Route)
    ensures
        route_tie(a, b) ==> destination_key(a) == destination_key(b),
        route_lt(a, b) && route_lt(b, c) ==> route_lt(a, c),
        !(route_lt(a, b) && route_lt(b, a)),
{
    match (destination_key(a), destination_key(b), destination_key(c)) {
        (Some(x), Some(y), Some(z)) => {
            lemma_text_lt_total(x, y);
            if text_lt(x, y) && text_lt(y, z) {
                lemma_text_lt_transitive(x, y, z);
            }
        },
        (Some(x), Some(y), _) => {
            lemma_text_lt_total(x, y);
        },
        _ => {},
    }
}

/// The routes in the order `routes` lists them: default routes first,
/// because they are what the selection weighs, then a stable order so that
/// consecutive runs can be compared.
pub fn ordered(routes: &Vec<Route>) -> (out: Vec<Route>)
    ensures
        exists|perm: Seq<int>| stably_sorted(routes@, out@, perm),
{
    let mut out: Vec<Route> = Vec::new();
    let ghost mut perm: Seq<int> = Seq::empty();
    let mut i: usize = 0;
    while i < routes.len()
        invariant
            i <= routes@.len(),
            stably_sorted(routes@.subrange(0, i as int), out@, perm),
        decreases routes@.len() - i,
    {
        let x = routes[i];
        // The first position whose route sorts strictly after `x`.
        let mut p: usize = 0;
        while p < out.len() && !route_less(&x, &out[p])
            invariant
                p <= out@.len(),
                forall|a: int| 0 <= a < p ==> !route_lt(x, #[trigger] out@[a]),
            decreases out@.len() - p,
        {
            p = p + 1;
        }
        proof {
            // Everything from `p` on sorts strictly after `x`.
            assert forall|a: int| p <= a < out@.len() implies route_lt(x, #[trigger] out@[a]) by {
                if a > p {
                    lemma_route_order(x, out@[p as int], out@[a]);
                    lemma_route_order(out@[p as int], out@[a], x);
                    if route_tie(out@[p as int], out@[a]) {
                        lemma_route_order(x, out@[a], out@[p as int]);
                    }
                }
            }
        }
        let ghost before = out@;
        let ghost old_perm = perm;
        out.insert(p, x);
        proof {
            perm = old_perm.insert(p as int, i as int);
            let input = routes@.subrange(0, i + 1);
            assert(routes@.subrange(0, i as int) =~= input.subrange(0, i as int));
            assert forall|a: int| 0 <= a < out@.len() implies #[trigger] out@[a] == input[perm[a]] by {
                if a < p {
                    assert(out@[a] == before[a]);
                } else if a > p {
                    assert(out@[a] == before[a - 1]);
                }
            }
            assert forall|a: int, b: int| 0 <= a < b < out@.len() implies !route_lt(
                out@[b],
                out@[a],
            ) by {
                if b == p {
                    assert(out@[a] == before[a]);
                    lemma_route_order(out@[a], x, x);
                } else if a == p {
                    assert(out@[b] == before[b - 1]);
                    lemma_route_order(x, out@[b], x);
                } else if a < p && b > p {
                    assert(out@[a] == before[a]);
                    assert(out@[b] == before[b - 1]);
                } else if b < p {
                    assert(out@[a] == before[a]);
                    assert(out@[b] == before[b]);
                } else {
                    assert(out@[a] == before[a - 1]);
                    assert(out@[b] == before[b - 1]);
                }
            }
            assert forall|a: int, b: int|
                0 <= a < b < out@.len() && route_tie(out@[a], out@[b]) implies perm[a] < perm[b] by {
                if b == p {
                    assert(perm[a] == old_perm[a]);
                } else if a == p {
                    assert(out@[b] == before[b - 1]);
                    assert(route_lt(x, before[b - 1]));
                } else if a < p && b > p {
                    assert(perm[a] == old_perm[a]);
                    assert(perm[b] == old_perm[b - 1]);
                } else if b < p {
                    assert(perm[a] == old_perm[a]);
                    assert(perm[b] == old_perm[b]);
                } else {
                    assert(perm[a] == old_perm[a - 1]);
                    assert(perm[b] == old_perm[b - 1]);
                }
            }
            assert forall|a: int| 0 <= a < i + 1 implies 0 <= #[trigger] perm[a] < i + 1 by {
                if a < p {
                    assert(perm[a] == old_perm[a]);
                } else if a > p {
                    assert(perm[a] == old_perm[a - 1]);
                }
            }
            assert forall|a: int, b: int| 0 <= a < b < i + 1 implies perm[a] != perm[b] by {
                if a < p && b < p {
                    assert(perm[a] == old_perm[a] && perm[b] == old_perm[b]);
                } else if a < p && b == p {
                    assert(perm[a] == old_perm[a]);
                } else if a < p {
                    assert(perm[a] == old_perm[a] && perm[b] == old_perm[b - 1]);
                } else if a == p {
                    assert(perm[b] == old_perm[b - 1]);
                } else {
                    assert(perm[a] == old_perm[a - 1] && perm[b] == old_perm[b - 1]);
                }
            }
        }
        i = i + 1;
    }
    assert(routes@.subrange(0, routes@.len() as int) =~= routes@);
    out
}

// ---------------------------------------------------------------------------
// The table
// ---------------------------------------------------------------------------

/// The name of the interface with `index`, or `#index` where the snapshot
/// has none.
#[verifier::opaque]
pub open spec fn interface_name_text(ifaces: Seq<Interface>, index: u32) -> Seq<char> {
    if exists|j: int| 0 <= j < ifaces.len() && (#[trigger] ifaces[j]).index == index {
        ifaces[choose|j: int| 0 <= j < ifaces.len() && (#[trigger] ifaces[j]).index == index
            && forall|k: int| 0 <= k < j ==> (#[trigger] ifaces[k]).index != index].name@
    } else {
        "#"@ + decimal(index as nat)
    }
}

/// The cells of a route's row: destination (a highlighted `default` where
/// there is none), gateway (a dim dash where there is none), interface,
/// metric and family.
pub open spec fn route_cells(r: Route, ifaces: Seq<Interface>, colours: bool) -> Seq<Seq<char>> {
    seq![
        match r.destination {
            Some(d) => d.text(),
            None => as_value(colours, "default"@),
        },
        match r.gateway {
            Some(g) => g.text(),
            None => as_muted(colours, "\u{2014}"@),
        },
        interface_name_text(ifaces, r.interface_index),
        decimal(r.metric as nat),
        r.family.text(),
    ]
}

/// The rows of the routes table.
pub open spec fn route_rows(routes: Seq<Route>, ifaces: Seq<Interface>, colours: bool) -> Seq<
    Seq<Seq<char>>,
> {
    routes.map_values(|r: Route| route_cells(r, ifaces, colours))
}

/// The header row of the routes table.
pub open spec fn route_headers() -> Seq<Seq<char>> {
    seq!["DESTINATION"@, "GATEWAY"@, "INTERFACE"@, "METRIC"@, "FAMILY"@]
}

/// The name of the interface with `index`, as [`interface_name_text`] says.
fn name_of(state: &NetworkState, index: u32) -> (s: String)
    ensures
        s@ == interface_name_text(state.interfaces@, index),
{
    reveal(interface_name_text);
    match state.interface_by_index(index) {
        Some(p) => {
            let ghost ifaces = state.interfaces@;
            let ghost j = choose|j: int|
                0 <= j < ifaces.len() && (#[trigger] ifaces[j]).index == index && forall|k: int|
                    0 <= k < j ==> (#[trigger] ifaces[k]).index != index;
            assert(ifaces[p as int].index == index);
            assert(j == p) by {
                if j < p {
                    assert(ifaces[j].index != index);
                } else if j > p {
                    assert(ifaces[p as int].index != index);
                }
            }
            owned(state.interfaces[p].name.as_str())
        },
        None => {
            let mut s = owned("#");
            push_numeral(&mut s, index as u64, 10);
            s
        },
    }
}

/// One route's row, as [`route_cells`] says.
fn route_row(route: &Route, state: &NetworkState, theme: Theme) -> (row: Vec<String>)
    ensures
        cell_views(row) == route_cells(*route, state.interfaces@, theme.colours()),
        row@.len() == 5,
{
    let destination = match route.destination {
        Some(d) => {
            let mut s = String::new();
            d.push_text(&mut s);
            s
        },
        None => theme.value("default"),
    };
    let gateway = match route.gateway {
        Some(g) => g.to_text(),
        None => theme.muted("\u{2014}"),
    };
    let mut metric = String::new();
    push_numeral(&mut metric, route.metric as u64, 10);
    let mut row: Vec<String> = Vec::new();
    row.push(destination);
    row.push(gateway);
    row.push(name_of(state, route.interface_index));
    row.push(metric);
    row.push(owned(route.family.as_str()));
    assert(cell_views(row) =~= route_cells(*route, state.interfaces@, theme.colours()));
    row
}

/// The routes table for `routes`, read against the snapshot's interfaces.
pub fn routes_table(routes: &Vec<Route>, state: &NetworkState, theme: Theme) -> (out: String)
    ensures
        out@ == table_text(
            route_headers(),
            route_rows(routes@, state.interfaces@, theme.colours()),
            theme.colours(),
        ),
{
    let ghost colours = theme.colours();
    let ghost ifaces = state.interfaces@;
    let mut rows: Vec<Vec<String>> = Vec::new();
    let mut k: usize = 0;
    while k < routes.len()
        invariant
            k <= routes@.len(),
            colours == theme.colours(),
            ifaces == state.interfaces@,
            row_views(rows@) == route_rows(routes@.subrange(0, k as int), ifaces, colours),
        decreases routes@.len() - k,
    {
        let row = route_row(&routes[k], state, theme);
        let ghost cells = route_cells(routes@[k as int], ifaces, colours);
        let ghost old_rows = rows@;
        rows.push(row);
        let ghost upto = routes@.subrange(0, k as int);
        assert(routes@.subrange(0, k + 1) =~= upto.push(routes@[k as int]));
        assert(row_views(rows@) =~= row_views(old_rows).push(cell_views(row)));
        assert(route_rows(upto.push(routes@[k as int]), ifaces, colours) =~= route_rows(
            upto,
            ifaces,
            colours,
        ).push(cells));
        k = k + 1;
    }
    assert(routes@.subrange(0, routes@.len() as int) =~= routes@);
    let headers = ["DESTINATION", "GATEWAY", "INTERFACE", "METRIC", "FAMILY"];
    proof {
        reveal_strlit("DESTINATION");
        reveal_strlit("GATEWAY");
        reveal_strlit("INTERFACE");
        reveal_strlit("METRIC");
        reveal_strlit("FAMILY");
    }
    assert(header_views(headers@) =~= route_headers());
    table(&headers, rows.as_slice(), theme)
}

} // verus!
