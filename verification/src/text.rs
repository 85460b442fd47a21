//! Text building blocks shared by every renderer: decimal and hexadecimal
//! numerals, and appending to a `String` with a known result.

use vstd::prelude::*;

verus! {

/// The ASCII digit for a value below sixteen, lowercase for ten and above.
pub open spec fn digit_char(d: nat) -> char {
    if d < 10 {
        ((d + 48) as u8) as char
    } else {
        ((d - 10 + 97) as u8) as char
    }
}

/// `n` written in base `radix` without leading zeros (`0` for zero).
pub open spec fn numeral(n: nat, radix: nat) -> Seq<char>
    recommends
        2 <= radix <= 16,
    decreases n,
{
    if radix < 2 || n < radix {
        seq![digit_char(n % 16)]
    } else {
        proof {
            lemma_quotient_smaller(n, radix);
        }
        numeral(n / radix, radix).push(digit_char(n % radix))
    }
}

/// Dividing by a radix of at least two makes a number no smaller than the
/// radix strictly smaller.
pub proof fn lemma_quotient_smaller(n: nat, radix: nat)
    requires
        2 <= radix <= n,
    ensures
        n / radix < n,
        n / radix >= 1,
{
    assert(n / radix < n && n / radix >= 1) by (nonlinear_arith)
        requires
            2 <= radix <= n,
    ;
}

/// `n` in decimal.
pub open spec fn decimal(n: nat) -> Seq<char> {
    numeral(n, 10)
}

/// `n` in lowercase hexadecimal.
pub open spec fn hex(n: nat) -> Seq<char> {
    numeral(n, 16)
}

/// Append one character to a string.
#[verifier::external_body]
pub(crate) fn push_char(s: &mut String, c: char)
    ensures
        final(s)@ == old(s)@.push(c),
{
    s.push(c);
}

/// Append a string slice to a string.
#[verifier::external_body]
pub(crate) fn push_str(s: &mut String, t: &str)
    ensures
        final(s)@ == old(s)@ + t@,
{
    s.push_str(t);
}

/// Write `n` in base `radix` onto the end of `out`.
pub fn push_numeral(out: &mut String, n: u64, radix: u64)
    requires
        2 <= radix <= 16,
    ensures
        final(out)@ == old(out)@ + numeral(n as nat, radix as nat),
    decreases n,
{
    if n < radix {
        push_char(out, digit(n));
    } else {
        proof {
            lemma_quotient_smaller(n as nat, radix as nat);
        }
        push_numeral(out, n / radix, radix);
        push_char(out, digit(n % radix));
    }
}

/// The digit character for a value below sixteen.
pub fn digit(d: u64) -> (c: char)
    requires
        d < 16,
    ensures
        c == digit_char(d as nat),
{
    if d < 10 {
        ((d + 48) as u8) as char
    } else {
        ((d - 10 + 97) as u8) as char
    }
}

} // verus!

verus! {

/// Whether two string slices hold the same characters.
pub fn str_eq(a: &str, b: &str) -> (r: bool)
    ensures
        r == (a@ == b@),
{
    let n = a.unicode_len();
    if n != b.unicode_len() {
        return false;
    }
    let mut i: usize = 0;
    while i < n
        invariant
            n == a@.len() == b@.len(),
            i <= n,
            forall|j: int| 0 <= j < i ==> a@[j] == b@[j],
        decreases n - i,
    {
        if a.get_char(i) != b.get_char(i) {
            return false;
        }
        i = i + 1;
    }
    assert(a@ =~= b@);
    true
}

/// Whether `s` begins with `prefix`.
pub fn starts_with(s: &str, prefix: &str) -> (r: bool)
    ensures
        r == prefix@.is_prefix_of(s@),
{
    let n = prefix.unicode_len();
    if n > s.unicode_len() {
        return false;
    }
    let mut i: usize = 0;
    while i < n
        invariant
            n == prefix@.len() <= s@.len(),
            i <= n,
            forall|j: int| 0 <= j < i ==> prefix@[j] == s@[j],
        decreases n - i,
    {
        if prefix.get_char(i) != s.get_char(i) {
            assert(prefix@ != s@.subrange(0, n as int));
            return false;
        }
        i = i + 1;
    }
    assert(prefix@ =~= s@.subrange(0, n as int));
    true
}

/// Append the characters of `s` from `lo` up to `hi`.
pub fn push_range(out: &mut String, s: &str, lo: usize, hi: usize)
    requires
        lo <= hi <= s@.len(),
    ensures
        final(out)@ == old(out)@ + s@.subrange(lo as int, hi as int),
{
    let mut i: usize = lo;
    while i < hi
        invariant
            lo <= i <= hi <= s@.len(),
            out@ == old(out)@ + s@.subrange(lo as int, i as int),
        decreases hi - i,
    {
        push_char(out, s.get_char(i));
        assert(s@.subrange(lo as int, i + 1) =~= s@.subrange(lo as int, i as int).push(
            s@[i as int],
        ));
        i = i + 1;
    }
}

/// Whether the characters of `s` from `lo` up to `hi` are those of `t`.
pub fn range_eq(s: &str, lo: usize, hi: usize, t: &str) -> (r: bool)
    requires
        lo <= hi <= s@.len(),
    ensures
        r == (s@.subrange(lo as int, hi as int) == t@),
{
    let n = t.unicode_len();
    if hi - lo != n {
        return false;
    }
    let mut i: usize = 0;
    while i < n
        invariant
            n == t@.len() == hi - lo,
            lo <= hi <= s@.len(),
            i <= n,
            forall|j: int| 0 <= j < i ==> s@[lo + j] == t@[j],
        decreases n - i,
    {
        if s.get_char(lo + i) != t.get_char(i) {
            assert(s@.subrange(lo as int, hi as int)[i as int] != t@[i as int]);
            return false;
        }
        i = i + 1;
    }
    assert(s@.subrange(lo as int, hi as int) =~= t@);
    true
}

/// A string holding the characters of `s`.
pub fn owned(s: &str) -> (r: String)
    ensures
        r@ == s@,
{
    s.to_owned()
}

} // verus!

verus! {

/// What `{:?}` renders for a string: the string in double quotes, with the
/// escapes Rust's `Debug` applies.
pub uninterp spec fn debug_quoted(s: Seq<char>) -> Seq<char>;

/// Render a string the way `{:?}` does, calling std's `Debug` for `str`.
/// Trusted: the result is std's and is named by [`debug_quoted`], a function
/// of the characters alone; nothing more is claimed about its shape.
#[verifier::external_body]
pub(crate) fn debug_quote(s: &str) -> (r: String)
    ensures
        r@ == debug_quoted(s@),
{
    format!("{s:?}")
}

} // verus!

verus! {

/// Unicode `White_Space`, which is what `str::trim` strips.
pub open spec fn is_whitespace(c: char) -> bool {
    c == ' ' || ('\t' <= c && c <= '\r') || c == '\u{85}' || c == '\u{a0}' || c == '\u{1680}'
        || ('\u{2000}' <= c && c <= '\u{200a}') || c == '\u{2028}' || c == '\u{2029}' || c
        == '\u{202f}' || c == '\u{205f}' || c == '\u{3000}'
}

/// `s` without its leading and trailing whitespace.
pub open spec fn trimmed(s: Seq<char>) -> Seq<char>
    decreases s.len(),
{
    if s.len() > 0 && is_whitespace(s[0]) {
        trimmed(s.drop_first())
    } else if s.len() > 0 && is_whitespace(s.last()) {
        trimmed(s.drop_last())
    } else {
        s
    }
}

/// ASCII lowercase of one character; everything else unchanged.
pub open spec fn ascii_lower(c: char) -> char {
    if 'A' <= c && c <= 'Z' {
        (((c as u32) + 32) as u8) as char
    } else {
        c
    }
}

/// ASCII lowercase of a whole string.
pub open spec fn ascii_lowered(s: Seq<char>) -> Seq<char> {
    s.map_values(|c: char| ascii_lower(c))
}

/// Whether a character is Unicode whitespace.
pub fn whitespace(c: char) -> (b: bool)
    ensures
        b == is_whitespace(c),
{
    c == ' ' || ('\t' <= c && c <= '\r') || c == '\u{85}' || c == '\u{a0}' || c == '\u{1680}'
        || ('\u{2000}' <= c && c <= '\u{200a}') || c == '\u{2028}' || c == '\u{2029}' || c
        == '\u{202f}' || c == '\u{205f}' || c == '\u{3000}'
}

/// ASCII lowercase of one character.
pub fn lower(c: char) -> (r: char)
    ensures
        r == ascii_lower(c),
{
    if 'A' <= c && c <= 'Z' {
        (((c as u32) + 32) as u8) as char
    } else {
        c
    }
}

/// Trimming drops whitespace only from the ends: the result is the slice
/// between the first and last non-whitespace characters.
pub proof fn lemma_trimmed_slice(s: Seq<char>, lo: int, hi: int)
    requires
        0 <= lo <= hi <= s.len(),
        forall|j: int| 0 <= j < lo ==> is_whitespace(#[trigger] s[j]),
        forall|j: int| hi <= j < s.len() ==> is_whitespace(#[trigger] s[j]),
        lo == hi || (!is_whitespace(s[lo]) && !is_whitespace(s[hi - 1])),
    ensures
        trimmed(s) == s.subrange(lo, hi),
    decreases s.len(),
{
    if s.len() > 0 && is_whitespace(s[0]) {
        assert(lo > 0 || lo == hi);
        if lo > 0 {
            lemma_trimmed_slice(s.drop_first(), lo - 1, hi - 1);
            assert(s.drop_first().subrange(lo - 1, hi - 1) =~= s.subrange(lo, hi));
        } else {
            // lo == hi == 0 with a leading space: everything is whitespace up to hi.
            assert(hi == 0);
            lemma_all_space_trims_empty(s);
            assert(s.subrange(lo, hi) =~= Seq::<char>::empty());
        }
    } else if s.len() > 0 && is_whitespace(s.last()) {
        if hi < s.len() {
            lemma_trimmed_slice(s.drop_last(), lo, hi);
            assert(s.drop_last().subrange(lo, hi) =~= s.subrange(lo, hi));
        } else {
            assert(lo == hi);
            lemma_trimmed_slice(s.drop_last(), lo, hi - 1 + (if hi > lo { 1int } else { 0int }));
            assert(hi == s.len());
            assert(lo == s.len() as int);
            lemma_all_space_trims_empty_from(s, lo);
            assert(s.subrange(lo, hi) =~= Seq::<char>::empty());
        }
    } else {
        if s.len() > 0 {
            assert(lo == 0 || lo == hi);
            assert(hi == s.len() || lo == hi);
            if lo == hi {
                if lo > 0 {
                    assert(is_whitespace(s[0]));
                } else if hi < s.len() {
                    assert(is_whitespace(s.last()));
                }
            }
        }
        assert(s.subrange(lo, hi) =~= s);
    }
}

/// A string of nothing but whitespace trims to nothing.
pub proof fn lemma_all_space_trims_empty(s: Seq<char>)
    requires
        forall|j: int| 0 <= j < s.len() ==> is_whitespace(#[trigger] s[j]),
    ensures
        trimmed(s) == Seq::<char>::empty(),
    decreases s.len(),
{
    if s.len() > 0 {
        lemma_all_space_trims_empty(s.drop_first());
    } else {
        assert(s =~= Seq::<char>::empty());
    }
}

/// Whitespace from `lo` to the end, and before it only whitespace too: the
/// string trims to nothing.
pub proof fn lemma_all_space_trims_empty_from(s: Seq<char>, lo: int)
    requires
        0 <= lo <= s.len(),
        forall|j: int| 0 <= j < lo ==> is_whitespace(#[trigger] s[j]),
        forall|j: int| lo <= j < s.len() ==> is_whitespace(#[trigger] s[j]),
    ensures
        trimmed(s) == Seq::<char>::empty(),
{
    lemma_all_space_trims_empty(s);
}

/// The positions between which `s` holds its trimmed characters.
pub fn trim_bounds(s: &str) -> (r: (usize, usize))
    ensures
        r.0 <= r.1 <= s@.len(),
        trimmed(s@) == s@.subrange(r.0 as int, r.1 as int),
{
    let n = s.unicode_len();
    let mut lo: usize = 0;
    while lo < n && whitespace(s.get_char(lo))
        invariant
            n == s@.len(),
            lo <= n,
            forall|j: int| 0 <= j < lo ==> is_whitespace(#[trigger] s@[j]),
        decreases n - lo,
    {
        lo = lo + 1;
    }
    let mut hi: usize = n;
    while hi > lo && whitespace(s.get_char(hi - 1))
        invariant
            n == s@.len(),
            lo <= hi <= n,
            forall|j: int| hi <= j < n ==> is_whitespace(#[trigger] s@[j]),
        decreases hi,
    {
        hi = hi - 1;
    }
    proof {
        if lo < hi {
            assert(!is_whitespace(s@[lo as int]));
            assert(!is_whitespace(s@[hi - 1]));
        }
        if lo == n {
            lemma_all_space_trims_empty(s@);
            assert(s@.subrange(lo as int, hi as int) =~= Seq::<char>::empty());
        } else {
            lemma_trimmed_slice(s@, lo as int, hi as int);
        }
    }
    (lo, hi)
}

/// `s` without its leading and trailing whitespace.
pub fn trim(s: &str) -> (r: String)
    ensures
        r@ == trimmed(s@),
{
    let (lo, hi) = trim_bounds(s);
    owned(s.substring_char(lo, hi))
}

/// Whether `s` is empty once trimmed.
pub fn is_blank(s: &str) -> (b: bool)
    ensures
        b == (trimmed(s@).len() == 0),
{
    let (lo, hi) = trim_bounds(s);
    lo == hi
}

/// The trimmed, ASCII-lowercased characters of `s`.
pub fn trim_lower(s: &str) -> (r: String)
    ensures
        r@ == ascii_lowered(trimmed(s@)),
{
    let (lo, hi) = trim_bounds(s);
    let mut out = String::new();
    let mut i = lo;
    while i < hi
        invariant
            lo <= i <= hi <= s@.len(),
            out@ == ascii_lowered(s@.subrange(lo as int, i as int)),
        decreases hi - i,
    {
        push_char(&mut out, lower(s.get_char(i)));
        assert(ascii_lowered(s@.subrange(lo as int, i + 1)) =~= ascii_lowered(
            s@.subrange(lo as int, i as int),
        ).push(ascii_lower(s@[i as int])));
        i = i + 1;
    }
    out
}

} // verus!

verus! {

/// A line ended by a newline, without the carriage return of a `\r\n`.
pub open spec fn without_cr(line: Seq<char>) -> Seq<char> {
    if line.len() > 0 && line.last() == '\r' {
        line.drop_last()
    } else {
        line
    }
}

/// The lines of `s` so far, as `str::lines` splits them, and the line
/// still being read.
pub open spec fn lines_state(s: Seq<char>) -> (Seq<Seq<char>>, Seq<char>)
    decreases s.len(),
{
    if s.len() == 0 {
        (Seq::empty(), Seq::empty())
    } else {
        let (done, cur) = lines_state(s.drop_last());
        if s.last() == '\n' {
            (done.push(without_cr(cur)), Seq::empty())
        } else {
            (done, cur.push(s.last()))
        }
    }
}

/// The lines of `s`, as `str::lines` gives them: split at each newline,
/// a `\r` before it dropped, and no empty line after the last newline.
pub open spec fn lines_of(s: Seq<char>) -> Seq<Seq<char>> {
    let (done, cur) = lines_state(s);
    if cur.len() > 0 {
        done.push(cur)
    } else {
        done
    }
}

} // verus!
