//! Reading numbers out of bytes: big-endian fields of addresses, and fields
//! the kernel wrote in this machine's own byte order.

use vstd::prelude::*;

verus! {

/// A byte order.
#[derive(Debug, Clone, Copy, PartialEq, Eq, Structural)]
pub enum ByteOrder {
    /// Least significant byte first.
    Little,
    /// Most significant byte first.
    Big,
}

/// Two bytes read as a little-endian number.
pub open spec fn le16(b0: u8, b1: u8) -> u16 {
    (b0 as int + 256 * b1 as int) as u16
}

/// Two bytes read as a big-endian number.
pub open spec fn be16(b0: u8, b1: u8) -> u16 {
    (b1 as int + 256 * b0 as int) as u16
}

/// Bytes read as a big-endian number.
pub open spec fn be_value(bytes: Seq<u8>) -> nat
    decreases bytes.len(),
{
    if bytes.len() == 0 {
        0
    } else {
        be_value(bytes.drop_last()) * 256 + bytes.last() as nat
    }
}

/// `256` to the power `n`.
pub open spec fn pow256(n: nat) -> nat
    decreases n,
{
    if n == 0 {
        1
    } else {
        256 * pow256((n - 1) as nat)
    }
}

/// `n` bytes read as a number stay below `256^n`.
pub proof fn lemma_be_value_bound(bytes: Seq<u8>)
    ensures
        be_value(bytes) < pow256(bytes.len()),
    decreases bytes.len(),
{
    if bytes.len() > 0 {
        lemma_be_value_bound(bytes.drop_last());
        let p = pow256((bytes.len() - 1) as nat);
        assert(be_value(bytes.drop_last()) * 256 + (bytes.last() as nat) < p * 256) by (nonlinear_arith)
            requires
                be_value(bytes.drop_last()) < p,
                bytes.last() < 256,
        ;
    }
}

/// Powers of 256 grow with the exponent.
pub proof fn lemma_pow256_grows(a: nat, b: nat)
    requires
        a <= b,
    ensures
        pow256(a) <= pow256(b),
    decreases b,
{
    if a < b {
        lemma_pow256_grows(a, (b - 1) as nat);
    }
}

/// The two powers of 256 that bound addresses.
pub proof fn lemma_pow256_values()
    ensures
        pow256(4) == 0x1_0000_0000,
        pow256(16) == 0x1_0000_0000_0000_0000_0000_0000_0000_0000,
{
    reveal_with_fuel(pow256, 17);
}

/// Two bytes in the given order.
pub open spec fn word16(order: ByteOrder, b0: u8, b1: u8) -> u16 {
    match order {
        ByteOrder::Little => le16(b0, b1),
        ByteOrder::Big => be16(b0, b1),
    }
}

/// Four bytes in the given order.
pub open spec fn word32(order: ByteOrder, b: Seq<u8>) -> u32 {
    match order {
        ByteOrder::Little => (b[0] as int + 256 * b[1] as int + 65536 * b[2] as int + 16777216
            * b[3] as int) as u32,
        ByteOrder::Big => (b[3] as int + 256 * b[2] as int + 65536 * b[1] as int + 16777216
            * b[0] as int) as u32,
    }
}

/// The four-byte value of a prefix of an address stays below `2^32`, the
/// sixteen-byte one below `2^128`.
pub proof fn pow256_values(b: Seq<u8>)
    ensures
        b.len() == 4 ==> be_value(b) < 0x1_0000_0000,
        b.len() <= 16 ==> be_value(b) < 0x1_0000_0000_0000_0000_0000_0000_0000_0000,
{
    lemma_be_value_bound(b);
    lemma_pow256_values();
    if b.len() <= 16 {
        lemma_pow256_grows(b.len(), 16);
    }
}

/// The big-endian value of `bytes[from..to]`.
pub fn be_read(bytes: &[u8], from: usize, to: usize) -> (v: u128)
    requires
        from <= to <= bytes@.len(),
        to - from <= 16,
    ensures
        v == be_value(bytes@.subrange(from as int, to as int)),
{
    let mut v: u128 = 0;
    let mut i = from;
    while i < to
        invariant
            from <= i <= to <= bytes@.len(),
            to - from <= 16,
            v == be_value(bytes@.subrange(from as int, i as int)),
        decreases to - i,
    {
        let ghost part = bytes@.subrange(from as int, i + 1);
        assert(part.drop_last() =~= bytes@.subrange(from as int, i as int));
        proof {
            lemma_be_value_bound(part);
            lemma_pow256_grows(part.len(), 16);
            lemma_pow256_values();
        }
        v = v * 256 + bytes[i] as u128;
        i = i + 1;
    }
    v
}

/// Two bytes in this machine's byte order, by `u16::from_ne_bytes`. Trusted:
/// the result is one of the two readings of the bytes; which one depends on
/// the machine, so nothing more is stated.
#[verifier::external_body]
pub(crate) fn native_u16(b0: u8, b1: u8) -> (r: u16)
    ensures
        r == le16(b0, b1) || r == be16(b0, b1),
{
    u16::from_ne_bytes([b0, b1])
}

/// The byte order of this machine, found by reading a known pair of bytes
/// natively.
pub fn machine_order() -> (o: ByteOrder) {
    if native_u16(1, 0) == 1 {
        ByteOrder::Little
    } else {
        ByteOrder::Big
    }
}

/// Two bytes at `at`, in the given order.
pub fn read_u16(bytes: &[u8], at: usize, order: ByteOrder) -> (v: u16)
    requires
        at + 2 <= bytes@.len(),
    ensures
        v == word16(order, bytes@[at as int], bytes@[at + 1]),
{
    let b0 = bytes[at] as u16;
    let b1 = bytes[at + 1] as u16;
    match order {
        ByteOrder::Little => b0 + 256 * b1,
        ByteOrder::Big => b1 + 256 * b0,
    }
}

/// Four bytes at `at`, in the given order.
pub fn read_u32(bytes: &[u8], at: usize, order: ByteOrder) -> (v: u32)
    requires
        at + 4 <= bytes@.len(),
    ensures
        v == word32(order, bytes@.subrange(at as int, at + 4)),
{
    let b0 = bytes[at] as u32;
    let b1 = bytes[at + 1] as u32;
    let b2 = bytes[at + 2] as u32;
    let b3 = bytes[at + 3] as u32;
    match order {
        ByteOrder::Little => b0 + 256 * b1 + 65536 * b2 + 16777216 * b3,
        ByteOrder::Big => b3 + 256 * b2 + 65536 * b1 + 16777216 * b0,
    }
}

} // verus!
