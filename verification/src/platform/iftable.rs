//! The pure parts of the Windows interface table: the hardware bit, whether
//! it can be believed, and the LUID-keyed rows the classifier reads.

use vstd::prelude::*;

use crate::platform::wintype::{if_type, Ndis};
use std::collections::HashMap;

verus! {

/// `HardwareInterface` is the first bit in the Windows flag byte.
pub const HARDWARE_INTERFACE: u8 = 0x01;

/// The fields of one `MIB_IF_ROW2` that AutoNet reads.
#[derive(Debug, Clone, Copy, PartialEq, Eq, Structural)]
pub struct IfRow {
    /// `InterfaceLuid`.
    pub luid: u64,
    /// `Type`, an `IFTYPE` constant.
    pub if_type: u32,
    /// The flag byte of `InterfaceAndOperStatusFlags`.
    pub status_flags: u8,
    /// `AccessType`.
    pub access_type: i32,
    /// `PhysicalMediumType`.
    pub physical_medium: i32,
    /// `MediaType`.
    pub media_type: i32,
    /// `AdminStatus` is `NET_IF_ADMIN_STATUS_UP`.
    pub admin_up: bool,
}

/// What the interface table adds for one interface.
#[derive(Debug, Clone, Copy, PartialEq, Eq, Structural)]
pub struct Row {
    /// Classification evidence.
    pub ndis: Ndis,
    /// Administrative state.
    pub admin_up: bool,
    /// Link access type.
    pub access_type: i32,
}

/// Whether the hardware bit is set in a row.
pub open spec fn hardware_bit(row: IfRow) -> bool {
    row.status_flags & HARDWARE_INTERFACE != 0
}

/// Read the `HardwareInterface` bit for one row.
pub fn is_hardware(row: &IfRow) -> (b: bool)
    ensures
        b == hardware_bit(*row),
{
    row.status_flags & HARDWARE_INTERFACE != 0
}

/// The bit can be believed unless a software-loopback row claims to be
/// hardware, which is wrong whatever the cause. A table with no loopback row
/// trusts the bit rather than disabling a working signal on no evidence.
pub open spec fn bit_trusted(rows: Seq<IfRow>) -> bool {
    !(exists|i: int|
        0 <= i < rows.len() && (#[trigger] rows[i]).if_type == if_type::SOFTWARE_LOOPBACK
            && hardware_bit(rows[i]))
}

/// Whether the `HardwareInterface` bit can be believed on this machine.
pub fn trust_hardware_bit(rows: &[IfRow]) -> (b: bool)
    ensures
        b == bit_trusted(rows@),
{
    let mut i: usize = 0;
    while i < rows.len()
        invariant
            i <= rows@.len(),
            forall|j: int|
                0 <= j < i ==> !((#[trigger] rows@[j]).if_type == if_type::SOFTWARE_LOOPBACK
                    && hardware_bit(rows@[j])),
        decreases rows.len() - i,
    {
        if rows[i].if_type == if_type::SOFTWARE_LOOPBACK && is_hardware(&rows[i]) {
            return false;
        }
        i = i + 1;
    }
    true
}

/// What the table says of one interface; the hardware bit only where it can
/// be believed.
pub open spec fn row_of(r: IfRow, trusted: bool) -> Row {
    Row {
        ndis: Ndis {
            access_type: r.access_type,
            physical_medium: r.physical_medium,
            media_type: r.media_type,
            hardware_interface: if trusted {
                Some(hardware_bit(r))
            } else {
                None
            },
        },
        admin_up: r.admin_up,
        access_type: r.access_type,
    }
}

/// The rows keyed by LUID; a later row with the same LUID replaces an
/// earlier one.
pub open spec fn rows_by_luid(rows: Seq<IfRow>, trusted: bool) -> Map<u64, Row>
    decreases rows.len(),
{
    if rows.len() == 0 {
        Map::empty()
    } else {
        rows_by_luid(rows.drop_last(), trusted).insert(rows.last().luid, row_of(rows.last(), trusted))
    }
}

/// Build the LUID-keyed map.
pub fn collect(rows: &[IfRow]) -> (m: HashMap<u64, Row>)
    ensures
        m@ == rows_by_luid(rows@, bit_trusted(rows@)),
{
    broadcast use vstd::std_specs::hash::group_hash_axioms;
    let trusted = trust_hardware_bit(rows);
    let mut m: HashMap<u64, Row> = HashMap::new();
    let mut i: usize = 0;
    while i < rows.len()
        invariant
            i <= rows@.len(),
            trusted == bit_trusted(rows@),
            m@ == rows_by_luid(rows@.subrange(0, i as int), trusted),
        decreases rows.len() - i,
    {
        assert(rows@.subrange(0, i + 1).drop_last() =~= rows@.subrange(0, i as int));
        let r = &rows[i];
        let hardware = if trusted {
            Some(is_hardware(r))
        } else {
            None
        };
        m.insert(
            r.luid,
            Row {
                ndis: Ndis {
                    access_type: r.access_type,
                    physical_medium: r.physical_medium,
                    media_type: r.media_type,
                    hardware_interface: hardware,
                },
                admin_up: r.admin_up,
                access_type: r.access_type,
            },
        );
        i = i + 1;
    }
    assert(rows@.subrange(0, rows@.len() as int) =~= rows@);
    m
}

} // verus!
