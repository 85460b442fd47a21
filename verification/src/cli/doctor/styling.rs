//! What colour does to the doctor's report: nothing a reader sees. Taking
//! out the terminal's escape sequences and the spaces, the coloured report
//! reads as the plain one.

use vstd::prelude::*;

use crate::cli::doctor::{
    check_block, check_blocks, indented_lines, label_width, pad_to, report_text, summary_text,
    words_of, wrap_words, wrapped, Check, Status,
};
use crate::cli::render::{bold_text, dim_text, fg_text, spaces, trimmed_end};
use crate::text::is_whitespace;

verus! {

/// `s` as a reader sees it, spaces aside: every escape sequence (from
/// `ESC` through the `m` that ends it) and every space left out. `escaping`
/// says whether `s` starts inside an escape sequence.
pub open spec fn shown(s: Seq<char>, escaping: bool) -> Seq<char>
    decreases s.len(),
{
    if s.len() == 0 {
        Seq::empty()
    } else {
        let c = s[0];
        let rest = s.drop_first();
        if escaping {
            shown(rest, c != 'm')
        } else if c == '\x1b' {
            shown(rest, true)
        } else if c == ' ' {
            shown(rest, false)
        } else {
            seq![c] + shown(rest, false)
        }
    }
}

/// Whether `s`, started with `escaping`, ends inside an escape sequence.
pub open spec fn ends_escaping(s: Seq<char>, escaping: bool) -> bool
    decreases s.len(),
{
    if s.len() == 0 {
        escaping
    } else {
        let c = s[0];
        ends_escaping(s.drop_first(), if escaping {
            c != 'm'
        } else {
            c == '\x1b'
        })
    }
}

/// Whether `s` holds no escape character.
pub open spec fn clean(s: Seq<char>) -> bool {
    forall|i: int| 0 <= i < s.len() ==> s[i] != '\x1b'
}

/// Whether two texts read alike from the start, and end alike.
pub open spec fn alike(x: Seq<char>, y: Seq<char>) -> bool {
    shown(x, false) == shown(y, false) && ends_escaping(x, false) == ends_escaping(y, false)
}

/// Reading a joined text is reading one part, then the other from where
/// the first left off.
proof fn lemma_shown_concat(a: Seq<char>, b: Seq<char>, e: bool)
    ensures
        shown(a + b, e) == shown(a, e) + shown(b, ends_escaping(a, e)),
        ends_escaping(a + b, e) == ends_escaping(b, ends_escaping(a, e)),
    decreases a.len(),
{
    if a.len() == 0 {
        assert(a + b =~= b);
    } else {
        assert((a + b).drop_first() =~= a.drop_first() + b);
        assert((a + b)[0] == a[0]);
        let next = if e {
            a[0] != 'm'
        } else {
            a[0] == '\x1b'
        };
        lemma_shown_concat(a.drop_first(), b, next);
        if !e && a[0] != '\x1b' && a[0] != ' ' {
            assert(seq![a[0]] + shown(a.drop_first(), false) + shown(b, ends_escaping(a.drop_first(), false))
                =~= seq![a[0]] + (shown(a.drop_first(), false) + shown(
                b,
                ends_escaping(a.drop_first(), false),
            )));
        }
    }
}

/// A text without escape characters, read from outside an escape
/// sequence, ends outside one.
proof fn lemma_clean_ends_outside(s: Seq<char>)
    requires
        clean(s),
    ensures
        !ends_escaping(s, false),
    decreases s.len(),
{
    if s.len() > 0 {
        assert(s[0] != '\x1b');
        lemma_clean_ends_outside(s.drop_first());
    }
}

/// Inside an escape sequence, text without an `m` shows nothing and leaves
/// it open.
proof fn lemma_inside(u: Seq<char>)
    requires
        forall|i: int| 0 <= i < u.len() ==> u[i] != 'm',
    ensures
        shown(u, true) == Seq::<char>::empty(),
        ends_escaping(u, true),
    decreases u.len(),
{
    if u.len() > 0 {
        lemma_inside(u.drop_first());
    }
}

/// An escape sequence — `ESC`, characters other than `m`, then `m` — shows
/// nothing and ends the sequence, whatever state it is read in.
proof fn lemma_sequence(s: Seq<char>, e: bool)
    requires
        s.len() >= 2,
        s[0] == '\x1b',
        s.last() == 'm',
        forall|i: int| 0 <= i < s.len() - 1 ==> s[i] != 'm',
    ensures
        shown(s, e) == Seq::<char>::empty(),
        !ends_escaping(s, e),
{
    let u = s.subrange(1, s.len() - 1);
    assert(s =~= seq![s[0]] + (u + seq!['m']));
    assert forall|i: int| 0 <= i < u.len() implies u[i] != 'm' by {
        assert(u[i] == s[i + 1]);
    }
    lemma_inside(u);
    lemma_shown_concat(u, seq!['m'], true);
    let tail = u + seq!['m'];
    assert(s.drop_first() =~= tail);
    let m = seq!['m'];
    assert(m.drop_first() =~= Seq::<char>::empty());
    assert(m[0] == 'm' && m.len() == 1);
    assert(shown(Seq::<char>::empty(), false) == Seq::<char>::empty());
    assert(!ends_escaping(Seq::<char>::empty(), false));
    assert(shown(seq!['m'], true) == Seq::<char>::empty());
    assert(!ends_escaping(seq!['m'], true));
    assert(shown(tail, true) =~= Seq::<char>::empty());
}

/// The escape sequences the report's styles use.
proof fn lemma_codes()
    ensures
        forall|e: bool| shown("\x1b[0m"@, e) == Seq::<char>::empty() && !ends_escaping("\x1b[0m"@, e),
        forall|e: bool| shown("\x1b[1m"@, e) == Seq::<char>::empty() && !ends_escaping("\x1b[1m"@, e),
        forall|e: bool| shown("\x1b[2m"@, e) == Seq::<char>::empty() && !ends_escaping("\x1b[2m"@, e),
        forall|e: bool| shown("\x1b[39m"@, e) == Seq::<char>::empty() && !ends_escaping("\x1b[39m"@, e),
        forall|e: bool| shown("\x1b[32m"@, e) == Seq::<char>::empty() && !ends_escaping("\x1b[32m"@, e),
        forall|e: bool| shown("\x1b[33m"@, e) == Seq::<char>::empty() && !ends_escaping("\x1b[33m"@, e),
        forall|e: bool| shown("\x1b[31m"@, e) == Seq::<char>::empty() && !ends_escaping("\x1b[31m"@, e),
{
    reveal_strlit("\x1b[0m");
    reveal_strlit("\x1b[1m");
    reveal_strlit("\x1b[2m");
    reveal_strlit("\x1b[39m");
    reveal_strlit("\x1b[32m");
    reveal_strlit("\x1b[33m");
    reveal_strlit("\x1b[31m");
    assert forall|e: bool| shown("\x1b[0m"@, e) == Seq::<char>::empty() && !ends_escaping("\x1b[0m"@, e) by {
        lemma_sequence("\x1b[0m"@, e);
    }
    assert forall|e: bool| shown("\x1b[1m"@, e) == Seq::<char>::empty() && !ends_escaping("\x1b[1m"@, e) by {
        lemma_sequence("\x1b[1m"@, e);
    }
    assert forall|e: bool| shown("\x1b[2m"@, e) == Seq::<char>::empty() && !ends_escaping("\x1b[2m"@, e) by {
        lemma_sequence("\x1b[2m"@, e);
    }
    assert forall|e: bool| shown("\x1b[39m"@, e) == Seq::<char>::empty() && !ends_escaping("\x1b[39m"@, e) by {
        lemma_sequence("\x1b[39m"@, e);
    }
    assert forall|e: bool| shown("\x1b[32m"@, e) == Seq::<char>::empty() && !ends_escaping("\x1b[32m"@, e) by {
        lemma_sequence("\x1b[32m"@, e);
    }
    assert forall|e: bool| shown("\x1b[33m"@, e) == Seq::<char>::empty() && !ends_escaping("\x1b[33m"@, e) by {
        lemma_sequence("\x1b[33m"@, e);
    }
    assert forall|e: bool| shown("\x1b[31m"@, e) == Seq::<char>::empty() && !ends_escaping("\x1b[31m"@, e) by {
        lemma_sequence("\x1b[31m"@, e);
    }
}

/// Texts that read alike, followed by texts that read alike, read alike,
/// provided the first part ends outside an escape sequence.
proof fn lemma_alike_concat(x1: Seq<char>, x2: Seq<char>, y1: Seq<char>, y2: Seq<char>)
    requires
        alike(x1, x2),
        alike(y1, y2),
        !ends_escaping(x1, false),
    ensures
        alike(x1 + y1, x2 + y2),
{
    lemma_shown_concat(x1, y1, false);
    lemma_shown_concat(x2, y2, false);
}

/// Texts that read alike, followed by the same text, read alike.
proof fn lemma_alike_suffix(x1: Seq<char>, x2: Seq<char>, y: Seq<char>)
    requires
        alike(x1, x2),
    ensures
        alike(x1 + y, x2 + y),
{
    lemma_shown_concat(x1, y, false);
    lemma_shown_concat(x2, y, false);
}

/// Clean texts joined are clean.
proof fn lemma_clean_concat(a: Seq<char>, b: Seq<char>)
    requires
        clean(a),
        clean(b),
    ensures
        clean(a + b),
{
    assert forall|i: int| 0 <= i < (a + b).len() implies (a + b)[i] != '\x1b' by {
        if i < a.len() {
            assert((a + b)[i] == a[i]);
        } else {
            assert((a + b)[i] == b[i - a.len()]);
        }
    }
}

/// A clean text between an opening sequence and a closing one reads as the
/// text alone, and both end outside any sequence.
proof fn lemma_styled(open: Seq<char>, close: Seq<char>, t: Seq<char>)
    requires
        shown(open, false) == Seq::<char>::empty(),
        !ends_escaping(open, false),
        forall|e: bool| shown(close, e) == Seq::<char>::empty() && !ends_escaping(close, e),
        clean(t),
    ensures
        alike(open + t + close, t),
        !ends_escaping(t, false),
{
    lemma_clean_ends_outside(t);
    lemma_shown_concat(open, t, false);
    lemma_shown_concat(open + t, close, false);
    assert(shown(open + t + close, false) =~= shown(t, false));
}

/// A clean text, dimmed or in bold, reads as itself.
proof fn lemma_dim_bold(t: Seq<char>)
    requires
        clean(t),
    ensures
        alike(dim_text(t), t),
        alike(bold_text(t), t),
        !ends_escaping(t, false),
{
    lemma_codes();
    lemma_styled("\x1b[2m"@, "\x1b[0m"@, t);
    lemma_styled("\x1b[1m"@, "\x1b[0m"@, t);
}

/// A status token, painted or not, reads the same and ends outside any
/// sequence.
proof fn lemma_painted(s: Status)
    ensures
        alike(s.painted(true), s.painted(false)),
        !ends_escaping(s.painted(false), false),
        s.painted(true).len() > 0 && !is_whitespace(s.painted(true).last()),
        s.painted(false).len() > 0 && !is_whitespace(s.painted(false).last()),
{
    reveal_strlit("[ ok ]");
    reveal_strlit("[warn]");
    reveal_strlit("[fail]");
    reveal_strlit("[ ?  ]");
    reveal_strlit("\x1b[");
    reveal_strlit("m");
    reveal_strlit("32");
    reveal_strlit("33");
    reveal_strlit("31");
    reveal_strlit("\x1b[0m");
    reveal_strlit("\x1b[2m");
    reveal_strlit("\x1b[39m");
    reveal_strlit("\x1b[32m");
    reveal_strlit("\x1b[33m");
    reveal_strlit("\x1b[31m");
    lemma_codes();
    let t = s.token_text();
    assert(clean(t));
    match s {
        Status::Pass => {
            assert("\x1b["@ + "32"@ + "m"@ =~= "\x1b[32m"@);
            lemma_styled("\x1b[32m"@, "\x1b[39m"@, t);
        },
        Status::Warn => {
            assert("\x1b["@ + "33"@ + "m"@ =~= "\x1b[33m"@);
            lemma_styled("\x1b[33m"@, "\x1b[39m"@, t);
        },
        Status::Fail => {
            assert("\x1b["@ + "31"@ + "m"@ =~= "\x1b[31m"@);
            lemma_styled("\x1b[31m"@, "\x1b[39m"@, t);
        },
        Status::Unknown => {
            lemma_styled("\x1b[2m"@, "\x1b[0m"@, t);
        },
    }
}

/// Whether every text in `lines` is clean.
pub open spec fn all_clean(lines: Seq<Seq<char>>) -> bool {
    forall|k: int| 0 <= k < lines.len() ==> clean(#[trigger] lines[k])
}

/// The words of a clean text are clean.
proof fn lemma_words_clean(s: Seq<char>)
    requires
        clean(s),
    ensures
        all_clean(words_of(s)),
    decreases s.len(),
{
    if s.len() > 0 {
        let rest = s.drop_last();
        assert(clean(rest)) by {
            assert forall|i: int| 0 <= i < rest.len() implies rest[i] != '\x1b' by {
                assert(rest[i] == s[i]);
            }
        }
        lemma_words_clean(rest);
        let w = words_of(rest);
        assert(s.last() == s[s.len() - 1]);
        if is_whitespace(s.last()) {
        } else if s.len() >= 2 && !is_whitespace(s[s.len() - 2]) {
            assert(rest.last() == s[s.len() - 2]);
            super::lemma_words_open(rest);
            let out = words_of(s);
            assert forall|k: int| 0 <= k < out.len() implies clean(#[trigger] out[k]) by {
                if k == w.len() - 1 {
                    assert(out[k] == w.last().push(s.last()));
                    assert(clean(w[w.len() - 1]));
                    assert forall|i: int| 0 <= i < out[k].len() implies out[k][i] != '\x1b' by {
                        if i < w.last().len() {
                            assert(out[k][i] == w.last()[i]);
                        }
                    }
                } else {
                    assert(out[k] == w[k]);
                }
            }
        } else {
            let out = words_of(s);
            assert forall|k: int| 0 <= k < out.len() implies clean(#[trigger] out[k]) by {
                if k < w.len() {
                    assert(out[k] == w[k]);
                } else {
                    assert(out[k] == seq![s.last()]);
                }
            }
        }
    }
}

/// Wrapping clean words gives clean lines.
proof fn lemma_wrap_clean(words: Seq<Seq<char>>, width: int)
    requires
        all_clean(words),
    ensures
        all_clean(wrap_words(words, width).0),
        clean(wrap_words(words, width).1),
    decreases words.len(),
{
    if words.len() > 0 {
        let rest = words.drop_last();
        assert(all_clean(rest)) by {
            assert forall|k: int| 0 <= k < rest.len() implies clean(#[trigger] rest[k]) by {
                assert(rest[k] == words[k]);
            }
        }
        lemma_wrap_clean(rest, width);
        let (lines, line) = wrap_words(rest, width);
        let w = words.last();
        assert(clean(words[words.len() - 1]));
        assert(clean(seq![' ']));
        lemma_clean_concat(line, seq![' ']);
        lemma_clean_concat(line + seq![' '], w);
        let pushed = lines.push(line);
        assert forall|k: int| 0 <= k < pushed.len() implies clean(#[trigger] pushed[k]) by {
            if k < lines.len() {
                assert(pushed[k] == lines[k]);
            }
        }
    }
}

/// A clean text wraps into clean lines.
proof fn lemma_wrapped_clean(text: Seq<char>, width: int)
    requires
        clean(text),
    ensures
        all_clean(wrapped(text, width)),
{
    lemma_words_clean(text);
    lemma_wrap_clean(words_of(text), width);
    let (lines, line) = wrap_words(words_of(text), width);
    let pushed = lines.push(line);
    assert forall|k: int| 0 <= k < pushed.len() implies clean(#[trigger] pushed[k]) by {
        if k < lines.len() {
            assert(pushed[k] == lines[k]);
        }
    }
    assert(clean(Seq::<char>::empty()));
    assert(all_clean(seq![Seq::<char>::empty()]));
}

/// Spaces are clean.
proof fn lemma_spaces_clean(n: nat)
    ensures
        clean(spaces(n)),
{
}

/// Clean lines, indented and ended, make a clean text.
proof fn lemma_indented_clean(lines: Seq<Seq<char>>, g: int)
    requires
        all_clean(lines),
    ensures
        clean(indented_lines(lines, g)),
    decreases lines.len(),
{
    if lines.len() > 0 {
        let rest = lines.drop_last();
        assert(all_clean(rest)) by {
            assert forall|k: int| 0 <= k < rest.len() implies clean(#[trigger] rest[k]) by {
                assert(rest[k] == lines[k]);
            }
        }
        lemma_indented_clean(rest, g);
        lemma_spaces_clean(g as nat);
        assert(clean(lines[lines.len() - 1]));
        lemma_clean_concat(indented_lines(rest, g), spaces(g as nat));
        lemma_clean_concat(indented_lines(rest, g) + spaces(g as nat), lines.last());
        lemma_clean_concat(indented_lines(rest, g) + spaces(g as nat) + lines.last(), seq!['\n']);
    }
}

/// What is left of a clean text after trimming its end is clean.
proof fn lemma_trimmed_clean(s: Seq<char>)
    requires
        clean(s),
    ensures
        clean(trimmed_end(s)),
    decreases s.len(),
{
    if s.len() > 0 && is_whitespace(s.last()) {
        let rest = s.drop_last();
        assert(clean(rest)) by {
            assert forall|i: int| 0 <= i < rest.len() implies rest[i] != '\x1b' by {
                assert(rest[i] == s[i]);
            }
        }
        lemma_trimmed_clean(rest);
    }
}

/// Trimming the end of a text stops at the last character that is not
/// whitespace, so a prefix ending in one is kept whole.
proof fn lemma_trim_after(x: Seq<char>, y: Seq<char>)
    requires
        x.len() > 0,
        !is_whitespace(x.last()),
    ensures
        trimmed_end(x + y) == x + trimmed_end(y),
    decreases y.len(),
{
    if y.len() == 0 {
        assert(x + y =~= x);
        assert(x + trimmed_end(y) =~= x);
    } else if is_whitespace(y.last()) {
        assert((x + y).drop_last() =~= x + y.drop_last());
        assert((x + y).last() == y.last());
        lemma_trim_after(x, y.drop_last());
    } else {
        assert((x + y).last() == y.last());
    }
}

/// One check reads alike in colour and without, provided its label and
/// detail hold no escape character, and ends outside any sequence.
proof fn lemma_block_alike(c: Check, lw: int, g: int, dw: int)
    requires
        clean(c.label@),
        clean(c.detail@),
    ensures
        alike(check_block(c, true, lw, g, dw), check_block(c, false, lw, g, dw)),
        !ends_escaping(check_block(c, false, lw, g, dw), false),
{
    let lines = wrapped(c.detail@, dw);
    lemma_wrapped_clean(c.detail@, dw);
    assert(clean(lines[0]));
    let w = if lw > c.label@.len() {
        lw - c.label@.len()
    } else {
        0
    };
    lemma_spaces_clean(w as nat);
    lemma_clean_concat(c.label@, spaces(w as nat));
    assert(clean(pad_to(c.label@, lw)));
    reveal_strlit("  ");
    assert(clean("  "@));
    let tail = "  "@ + pad_to(c.label@, lw) + "  "@ + lines[0];
    lemma_clean_concat("  "@, pad_to(c.label@, lw));
    lemma_clean_concat("  "@ + pad_to(c.label@, lw), "  "@);
    lemma_clean_concat("  "@ + pad_to(c.label@, lw) + "  "@, lines[0]);
    lemma_trimmed_clean(tail);
    lemma_clean_ends_outside(trimmed_end(tail));
    lemma_painted(c.status);
    let head_c = "  "@ + c.status.painted(true);
    let head_p = "  "@ + c.status.painted(false);
    assert(head_c.last() == c.status.painted(true).last());
    assert(head_p.last() == c.status.painted(false).last());
    assert("  "@ + c.status.painted(true) + "  "@ + pad_to(c.label@, lw) + "  "@ + lines[0] =~= head_c
        + tail);
    assert("  "@ + c.status.painted(false) + "  "@ + pad_to(c.label@, lw) + "  "@ + lines[0] =~= head_p
        + tail);
    lemma_trim_after(head_c, tail);
    lemma_trim_after(head_p, tail);
    // The two heads read alike.
    assert(alike("  "@, "  "@));
    lemma_clean_ends_outside("  "@);
    lemma_alike_concat("  "@, "  "@, c.status.painted(true), c.status.painted(false));
    lemma_shown_concat("  "@, c.status.painted(false), false);
    assert(!ends_escaping(head_p, false));
    lemma_alike_concat(head_c, head_p, trimmed_end(tail), trimmed_end(tail));
    lemma_shown_concat(head_p, trimmed_end(tail), false);
    let rest = seq!['\n'] + indented_lines(lines.drop_first(), g);
    assert(all_clean(lines.drop_first())) by {
        assert forall|k: int| 0 <= k < lines.drop_first().len() implies clean(
            #[trigger] lines.drop_first()[k],
        ) by {
            assert(lines.drop_first()[k] == lines[k + 1]);
        }
    }
    lemma_indented_clean(lines.drop_first(), g);
    assert(clean(seq!['\n']));
    lemma_clean_concat(seq!['\n'], indented_lines(lines.drop_first(), g));
    lemma_clean_ends_outside(rest);
    lemma_alike_concat(head_c + trimmed_end(tail), head_p + trimmed_end(tail), rest, rest);
    lemma_shown_concat(head_p + trimmed_end(tail), rest, false);
    assert(check_block(c, true, lw, g, dw) =~= head_c + trimmed_end(tail) + rest);
    assert(check_block(c, false, lw, g, dw) =~= head_p + trimmed_end(tail) + rest);
}

/// Whether every check's label and detail hold no escape character.
pub open spec fn checks_clean(checks: Seq<Check>) -> bool {
    forall|k: int| 0 <= k < checks.len() ==> clean((#[trigger] checks[k]).label@) && clean(
        checks[k].detail@,
    )
}

/// The checklist reads alike in colour and without.
proof fn lemma_blocks_alike(checks: Seq<Check>, lw: int, g: int, dw: int)
    requires
        checks_clean(checks),
    ensures
        alike(check_blocks(checks, true, lw, g, dw), check_blocks(checks, false, lw, g, dw)),
        !ends_escaping(check_blocks(checks, false, lw, g, dw), false),
    decreases checks.len(),
{
    if checks.len() == 0 {
        assert(shown(Seq::<char>::empty(), false) == Seq::<char>::empty());
    } else {
        let rest = checks.drop_last();
        assert(checks_clean(rest)) by {
            assert forall|k: int| 0 <= k < rest.len() implies clean((#[trigger] rest[k]).label@) && clean(
                rest[k].detail@,
            ) by {
                assert(rest[k] == checks[k]);
            }
        }
        lemma_blocks_alike(rest, lw, g, dw);
        let c = checks.last();
        assert(clean(checks[checks.len() - 1].label@) && clean(checks[checks.len() - 1].detail@));
        lemma_block_alike(c, lw, g, dw);
        lemma_alike_concat(
            check_blocks(rest, true, lw, g, dw),
            check_blocks(rest, false, lw, g, dw),
            check_block(c, true, lw, g, dw),
            check_block(c, false, lw, g, dw),
        );
        lemma_shown_concat(check_blocks(rest, false, lw, g, dw), check_block(c, false, lw, g, dw), false);
    }
}

/// Colour changes nothing a reader sees of the doctor's report: with the
/// terminal's escape sequences and all spaces left out, the coloured report
/// reads exactly as the plain one, provided the platform, the labels and
/// the details hold no escape character of their own. The coloured report
/// does carry styling: it opens with an escape sequence.
pub proof fn law_colour_changes_nothing_visible(platform: Seq<char>, checks: Seq<Check>)
    requires
        clean(platform),
        checks_clean(checks),
    ensures
        shown(report_text(platform, checks, true), false) == shown(
            report_text(platform, checks, false),
            false,
        ),
        report_text(platform, checks, true)[0] == '\x1b',
{
    let lw = label_width(checks);
    let g = 2 + 6 + 2 + lw + 2;
    let dw = if 78 - g > 24 {
        78 - g
    } else {
        24
    };
    reveal_strlit("AutoNet doctor");
    reveal_strlit("\x1b[1m");
    let title = "AutoNet doctor"@;
    assert(clean(title));
    lemma_dim_bold(title);
    lemma_dim_bold(platform);
    let sp = seq![' '];
    assert(alike(sp, sp));
    assert(clean(sp));
    lemma_clean_ends_outside(sp);
    lemma_alike_concat(bold_text(title), title, sp, sp);
    lemma_shown_concat(title, sp, false);
    assert(!ends_escaping(title + sp, false));
    lemma_alike_concat(bold_text(title) + sp, title + sp, dim_text(platform), platform);
    lemma_shown_concat(title + sp, platform, false);
    let nl = seq!['\n', '\n'];
    assert(clean(nl));
    lemma_clean_ends_outside(nl);
    assert(!ends_escaping(title + sp + platform, false));
    lemma_alike_suffix(bold_text(title) + sp + dim_text(platform), title + sp + platform, nl);
    lemma_shown_concat(title + sp + platform, nl, false);
    assert(!ends_escaping(title + sp + platform + nl, false));
    lemma_blocks_alike(checks, lw, g, dw);
    lemma_alike_concat(
        bold_text(title) + sp + dim_text(platform) + nl,
        title + sp + platform + nl,
        check_blocks(checks, true, lw, g, dw),
        check_blocks(checks, false, lw, g, dw),
    );
    let last = seq!['\n'] + indented_lines(wrapped(summary_text(checks), 78), 0);
    lemma_alike_suffix(
        bold_text(title) + sp + dim_text(platform) + nl + check_blocks(checks, true, lw, g, dw),
        title + sp + platform + nl + check_blocks(checks, false, lw, g, dw),
        last,
    );
    assert(report_text(platform, checks, true) =~= bold_text(title) + sp + dim_text(platform) + nl
        + check_blocks(checks, true, lw, g, dw) + last);
    assert(report_text(platform, checks, false) =~= title + sp + platform + nl + check_blocks(
        checks,
        false,
        lw,
        g,
        dw,
    ) + last);
}

} // verus!
