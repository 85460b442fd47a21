//! The one thing netlink does not say: whether a link is Wi-Fi. cfg80211
//! links `phy80211` into every wireless device's sysfs directory, so its
//! presence is an exact test, where name prefixes are not.

use vstd::prelude::*;
use vstd::utf8::encode_utf8;

use crate::text::{push_str, str_eq};

verus! {

/// Two dots at `i`.
pub open spec fn dots_at(s: Seq<char>, i: int) -> bool {
    s[i] == '.' && s[i + 1] == '.'
}

/// A name that can safely stand in a sysfs path: not empty, no `/`, no `..`,
/// and short enough that the longest probe path fits in 256 bytes.
pub open spec fn probe_name(name: &str) -> bool {
    probe_chars(name@)
}

/// [`probe_name`], on the characters of the name: its UTF-8 encoding must
/// fit, with the prefix and the longer suffix, in 256 bytes.
pub open spec fn probe_chars(name: Seq<char>) -> bool {
    &&& name.len() > 0
    &&& !name.contains('/')
    &&& !(exists|i: int| 0 <= i < name.len() - 1 && #[trigger] dots_at(name, i))
    &&& 15 + encode_utf8(name).len() + 9 <= 256
}

/// The two paths whose existence marks `name` as wireless: `phy80211`
/// (cfg80211) and `wireless` (the old Wireless Extensions interface).
pub fn probe_paths(name: &str) -> (r: Option<(String, String)>)
    ensures
        match r {
            Some(p) => probe_name(name) && p.0@ == "/sys/class/net/"@ + name@ + "/phy80211"@
                && p.1@ == "/sys/class/net/"@ + name@ + "/wireless"@,
            None => !probe_name(name),
        },
{
    let n = name.unicode_len();
    if n == 0 {
        return None;
    }
    let mut i: usize = 0;
    while i < n
        invariant
            n == name@.len(),
            i <= n,
            forall|j: int| 0 <= j < i ==> name@[j] != '/',
            forall|j: int| 0 <= j < i && j + 1 < n ==> !#[trigger] dots_at(name@, j),
        decreases n - i,
    {
        let c = name.get_char(i);
        if c == '/' {
            assert(name@.contains('/')) by {
                assert(name@[i as int] == '/');
            }
            return None;
        }
        if c == '.' && i + 1 < n && name.get_char(i + 1) == '.' {
            assert(dots_at(name@, i as int));
            return None;
        }
        i = i + 1;
    }
    if name.as_bytes().len() > 256 - 24 {
        return None;
    }
    assert(!name@.contains('/'));
    assert(!(exists|i: int| 0 <= i < name@.len() - 1 && #[trigger] dots_at(name@, i)));

    let mut phy = String::new();
    push_str(&mut phy, "/sys/class/net/");
    push_str(&mut phy, name);
    let mut wireless = String::new();
    push_str(&mut wireless, phy.as_str());
    push_str(&mut phy, "/phy80211");
    push_str(&mut wireless, "/wireless");
    Some((phy, wireless))
}

/// Whether a path names something on disk, by `std::path::Path::exists`.
/// Trusted, and promising nothing: the answer is the file system's.
#[verifier::external_body]
fn path_exists(path: &str) -> (b: bool) {
    std::path::Path::new(path).exists()
}

/// Whether `name` is a wireless device: `phy80211` or `wireless` exists
/// under its sysfs directory. A name that could escape the directory, or a
/// missing `/sys`, answers "no" rather than failing.
pub fn is_wireless(name: &str) -> (b: bool)
    ensures
        b ==> probe_name(name),
{
    match probe_paths(name) {
        Some((phy, wireless)) => path_exists(phy.as_str()) || path_exists(wireless.as_str()),
        None => false,
    }
}

} // verus!
