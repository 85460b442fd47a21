//! Rendering hardware addresses, shared by every backend: what counts as a
//! reportable MAC is a decision about AutoNet's output, not about any kernel.

use vstd::prelude::*;

use crate::text::{digit, digit_char, push_char};

verus! {

/// A byte as two lowercase hexadecimal digits.
pub open spec fn hex_byte(b: u8) -> Seq<char> {
    seq![digit_char((b / 16) as nat), digit_char((b % 16) as nat)]
}

/// Bytes as colon-separated pairs of hexadecimal digits.
pub open spec fn colon_hex(bytes: Seq<u8>) -> Seq<char>
    decreases bytes.len(),
{
    if bytes.len() == 0 {
        Seq::empty()
    } else if bytes.len() == 1 {
        hex_byte(bytes[0])
    } else {
        colon_hex(bytes.drop_last()) + seq![':'] + hex_byte(bytes.last())
    }
}

/// Whether a hardware address is worth reporting: six bytes, not all zero.
/// Loopback and many tunnels carry an all-zero or empty address, and
/// InfiniBand's twenty bytes are not a MAC in any useful sense.
pub open spec fn reportable_mac(bytes: Seq<u8>) -> bool {
    bytes.len() == 6 && exists|i: int| 0 <= i < 6 && bytes[i] != 0
}

/// Render a hardware address as `02:0a:ff:00:1b:c3`, or `None` if it is
/// absent or meaningless.
pub fn format_mac(bytes: &[u8]) -> (r: Option<String>)
    ensures
        match r {
            Some(s) => reportable_mac(bytes@) && s@ == colon_hex(bytes@),
            None => !reportable_mac(bytes@),
        },
{
    if bytes.len() != 6 {
        return None;
    }
    let mut any = false;
    let mut i: usize = 0;
    while i < 6
        invariant
            bytes@.len() == 6,
            i <= 6,
            any == exists|j: int| 0 <= j < i && bytes@[j] != 0,
        decreases 6 - i,
    {
        if bytes[i] != 0 {
            any = true;
        }
        i = i + 1;
    }
    if !any {
        return None;
    }
    let mut s = String::new();
    let mut k: usize = 0;
    while k < 6
        invariant
            bytes@.len() == 6,
            k <= 6,
            s@ == colon_hex(bytes@.subrange(0, k as int)),
        decreases 6 - k,
    {
        let b = bytes[k];
        assert(bytes@.subrange(0, k + 1).drop_last() =~= bytes@.subrange(0, k as int));
        if k > 0 {
            push_char(&mut s, ':');
        }
        push_char(&mut s, digit((b / 16) as u64));
        push_char(&mut s, digit((b % 16) as u64));
        assert(s@ =~= colon_hex(bytes@.subrange(0, k + 1)));
        k = k + 1;
    }
    assert(bytes@.subrange(0, 6) =~= bytes@);
    Some(s)
}

} // verus!
