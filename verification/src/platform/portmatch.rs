//! Which listening socket a bind would collide with: the precedence rules,
//! written once for every platform's socket table.

use vstd::prelude::*;

use crate::ip::{is_v4_mapped, mapped_v4, IpAddr};

verus! {

/// A listening socket, reduced to what collision depends on.
pub trait Bound {
    /// The address it is bound to, unspecified for a wildcard bind.
    spec fn bound_address(&self) -> IpAddr;

    /// The port it is listening on.
    spec fn bound_port(&self) -> u16;

    /// The address it is bound to.
    fn address(&self) -> (a: IpAddr)
        ensures
            a == self.bound_address(),
    ;

    /// The port it is listening on.
    fn port(&self) -> (p: u16)
        ensures
            p == self.bound_port(),
    ;
}

/// `::ffff:a.b.c.d` taken as the IPv4 address it stands for; others as
/// they are. A socket bound to a v4-mapped address holds the IPv4 port.
pub open spec fn canonical_address(a: IpAddr) -> IpAddr {
    match a {
        IpAddr::V6(x) => if is_v4_mapped(x) {
            IpAddr::V4(mapped_v4(x))
        } else {
            a
        },
        IpAddr::V4(_) => a,
    }
}

/// Whether `wide`, a wildcard, subsumes `narrow`: `::` covers both
/// families (a dual-stack socket), `0.0.0.0` only IPv4.
pub open spec fn covers(wide: IpAddr, narrow: IpAddr) -> bool {
    wide.spec_is_unspecified() && (wide is V6 || narrow is V4)
}

/// Whether a bind to `wanted` contends with a listener on `bound`: the same
/// address, or a wildcard on either side. Symmetric in the wildcard: a
/// listener on `0.0.0.0` blocks a bind to one address, and a bind to
/// `0.0.0.0` is blocked by a listener on one address.
pub open spec fn contends_with(bound: IpAddr, wanted: IpAddr) -> bool {
    bound == wanted || covers(bound, wanted) || covers(wanted, bound)
}

/// The position of the first row on `port` whose (canonical) address
/// satisfies `exact`: equal to the wanted one, or merely contending.
pub open spec fn first_match<T: Bound>(rows: Seq<T>, address: IpAddr, port: u16, exact: bool) -> Option<int>
    decreases rows.len(),
{
    if rows.len() == 0 {
        None
    } else {
        let bound = canonical_address(rows[0].bound_address());
        let wanted = canonical_address(address);
        if rows[0].bound_port() == port && (if exact {
            bound == wanted
        } else {
            contends_with(bound, wanted)
        }) {
            Some(0)
        } else {
            match first_match(rows.drop_first(), address, port, exact) {
                Some(k) => Some(k + 1),
                None => None,
            }
        }
    }
}

/// The listener a bind to `(address, port)` collides with: the first exact
/// match wherever it appears, else the first broader (wildcard) one.
pub open spec fn collision<T: Bound>(rows: Seq<T>, address: IpAddr, port: u16) -> Option<int> {
    match first_match(rows, address, port, true) {
        Some(k) => Some(k),
        None => first_match(rows, address, port, false),
    }
}

/// `::ffff:a.b.c.d` taken as the IPv4 address it stands for.
pub fn canonical(address: IpAddr) -> (c: IpAddr)
    ensures
        c == canonical_address(address),
{
    match address.to_ipv4_mapped() {
        Some(v4) => v4,
        None => address,
    }
}

/// Whether a bind to `wanted` would contend with a listener on `bound`.
pub fn contends(bound: IpAddr, wanted: IpAddr) -> (b: bool)
    ensures
        b == contends_with(bound, wanted),
{
    let covers_wanted = bound.is_unspecified() && (bound.is_ipv6() || wanted.is_ipv4());
    let covered = wanted.is_unspecified() && (wanted.is_ipv6() || bound.is_ipv4());
    bound == wanted || covers_wanted || covered
}

/// `first_match` is the first position that matches.
proof fn lemma_first_match<T: Bound>(rows: Seq<T>, address: IpAddr, port: u16, exact: bool, p: int)
    requires
        0 <= p <= rows.len(),
        forall|j: int|
            0 <= j < p ==> !(#[trigger] rows[j].bound_port() == port && (if exact {
                canonical_address(rows[j].bound_address()) == canonical_address(address)
            } else {
                contends_with(canonical_address(rows[j].bound_address()), canonical_address(address))
            })),
        p == rows.len() || (rows[p].bound_port() == port && (if exact {
            canonical_address(rows[p].bound_address()) == canonical_address(address)
        } else {
            contends_with(canonical_address(rows[p].bound_address()), canonical_address(address))
        })),
    ensures
        first_match(rows, address, port, exact) == (if p == rows.len() {
            None
        } else {
            Some(p)
        }),
    decreases rows.len(),
{
    if rows.len() > 0 && p > 0 {
        assert forall|j: int| 0 <= j < p - 1 implies !(#[trigger] rows.drop_first()[j].bound_port() == port && (if exact {
            canonical_address(rows.drop_first()[j].bound_address()) == canonical_address(address)
        } else {
            contends_with(
                canonical_address(rows.drop_first()[j].bound_address()),
                canonical_address(address),
            )
        })) by {
            assert(rows.drop_first()[j] == rows[j + 1]);
        }
        lemma_first_match(rows.drop_first(), address, port, exact, p - 1);
    }
}

/// The listener that would collide with a bind to `(address, port)`. An
/// exact match names the most specific holder, so a broader one is only
/// remembered and an exact row wins wherever it appears in the table.
pub fn collides<'a, T: Bound>(rows: &'a [T], address: IpAddr, port: u16) -> (r: Option<&'a T>)
    ensures
        match r {
            Some(row) => collision(rows@, address, port) matches Some(k) && *row == rows@[k],
            None => collision(rows@, address, port) is None,
        },
{
    let wanted = canonical(address);
    let mut broader: Option<usize> = None;
    let mut i: usize = 0;
    while i < rows.len()
        invariant
            i <= rows@.len(),
            wanted == canonical_address(address),
            forall|j: int|
                0 <= j < i ==> !(#[trigger] rows@[j].bound_port() == port && canonical_address(
                    rows@[j].bound_address(),
                ) == wanted),
            match broader {
                Some(b) => b < i && rows@[b as int].bound_port() == port && contends_with(
                    canonical_address(rows@[b as int].bound_address()),
                    wanted,
                ) && forall|j: int|
                    0 <= j < b ==> !(#[trigger] rows@[j].bound_port() == port && contends_with(
                        canonical_address(rows@[j].bound_address()),
                        wanted,
                    )),
                None => forall|j: int|
                    0 <= j < i ==> !(#[trigger] rows@[j].bound_port() == port && contends_with(
                        canonical_address(rows@[j].bound_address()),
                        wanted,
                    )),
            },
        decreases rows.len() - i,
    {
        let row = &rows[i];
        if row.port() == port {
            let bound = canonical(row.address());
            if bound == wanted {
                proof {
                    lemma_first_match(rows@, address, port, true, i as int);
                }
                return Some(row);
            }
            if contends(bound, wanted) && broader.is_none() {
                broader = Some(i);
            }
        }
        i = i + 1;
    }
    proof {
        lemma_first_match(rows@, address, port, true, rows@.len() as int);
    }
    match broader {
        Some(b) => {
            proof {
                lemma_first_match(rows@, address, port, false, b as int);
            }
            Some(&rows[b])
        },
        None => {
            proof {
                lemma_first_match(rows@, address, port, false, rows@.len() as int);
            }
            None
        },
    }
}

} // verus!
