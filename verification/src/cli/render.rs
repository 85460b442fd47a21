//! Terminal-output helpers: a colour theme and a column-aligned table.

use vstd::prelude::*;

use crate::text::{is_whitespace, owned, push_char, push_str, str_eq, whitespace};
use owo_colors::OwoColorize;

verus! {

/// Whether to emit ANSI colour, decided once at startup.
#[derive(Debug, Clone, Copy)]
pub struct Theme {
    enabled: bool,
}

/// `text` in the dim style: `ESC[2m`, the text, `ESC[0m`.
pub open spec fn dim_text(t: Seq<char>) -> Seq<char> {
    "\x1b[2m"@ + t + "\x1b[0m"@
}

/// `text` in bold: `ESC[1m`, the text, `ESC[0m`.
pub open spec fn bold_text(t: Seq<char>) -> Seq<char> {
    "\x1b[1m"@ + t + "\x1b[0m"@
}

/// `text` in a foreground colour with SGR code `code`, then the default
/// foreground restored.
pub open spec fn fg_text(code: Seq<char>, t: Seq<char>) -> Seq<char> {
    "\x1b["@ + code + "m"@ + t + "\x1b[39m"@
}

/// `text` with foreground code `fg` and background code `bg` set in one
/// sequence, then every attribute reset.
pub open spec fn combo_text(fg: Seq<char>, bg: Seq<char>, t: Seq<char>) -> Seq<char> {
    "\x1b["@ + fg + ";"@ + bg + "m"@ + t + "\x1b[0m"@
}

/// `text.dimmed()` rendered by owo-colors. Trusted: the crate writes
/// `ESC[2m`, the text, then `ESC[0m`.
#[verifier::external_body]
fn dimmed(text: &str) -> (s: String)
    ensures
        s@ == dim_text(text@),
{
    text.dimmed().to_string()
}

/// `text.bold().cyan()` rendered by owo-colors. Trusted: the crate writes
/// the cyan code, the bold text, then the default foreground.
#[verifier::external_body]
fn bold_cyan(text: &str) -> (s: String)
    ensures
        s@ == fg_text("36"@, bold_text(text@)),
{
    text.bold().cyan().to_string()
}

/// `text.bold()` rendered by owo-colors. Trusted: `ESC[1m`, the text,
/// `ESC[0m`.
#[verifier::external_body]
fn bold(text: &str) -> (s: String)
    ensures
        s@ == bold_text(text@),
{
    text.bold().to_string()
}

/// `text.green()` rendered by owo-colors. Trusted: `ESC[32m`, the text, the
/// default foreground.
#[verifier::external_body]
fn green(text: &str) -> (s: String)
    ensures
        s@ == fg_text("32"@, text@),
{
    text.green().to_string()
}

/// `text.yellow()` rendered by owo-colors. Trusted: `ESC[33m`, the text,
/// the default foreground.
#[verifier::external_body]
fn yellow(text: &str) -> (s: String)
    ensures
        s@ == fg_text("33"@, text@),
{
    text.yellow().to_string()
}

/// `text.red()` rendered by owo-colors. Trusted: `ESC[31m`, the text, the
/// default foreground.
#[verifier::external_body]
fn red(text: &str) -> (s: String)
    ensures
        s@ == fg_text("31"@, text@),
{
    text.red().to_string()
}

/// `text.black().on_bright_white()` rendered by owo-colors. Trusted: the
/// crate writes one sequence setting both colours, `ESC[30;107m`, then the
/// text, then `ESC[0m`.
#[verifier::external_body]
fn black_on_bright_white(text: &str) -> (s: String)
    ensures
        s@ == combo_text("30"@, "107"@, text@),
{
    text.black().on_bright_white().to_string()
}

/// A label as a theme with or without colour renders it.
pub open spec fn as_label(colours: bool, t: Seq<char>) -> Seq<char> {
    if colours {
        dim_text(t)
    } else {
        t
    }
}

/// A value as a theme with or without colour renders it.
pub open spec fn as_value(colours: bool, t: Seq<char>) -> Seq<char> {
    if colours {
        fg_text("36"@, bold_text(t))
    } else {
        t
    }
}

/// Something working, as a theme with or without colour renders it.
pub open spec fn as_good(colours: bool, t: Seq<char>) -> Seq<char> {
    if colours {
        fg_text("32"@, t)
    } else {
        t
    }
}

/// A warning, as a theme with or without colour renders it.
pub open spec fn as_warn(colours: bool, t: Seq<char>) -> Seq<char> {
    if colours {
        fg_text("33"@, t)
    } else {
        t
    }
}

/// A failure, as a theme with or without colour renders it.
pub open spec fn as_bad(colours: bool, t: Seq<char>) -> Seq<char> {
    if colours {
        fg_text("31"@, t)
    } else {
        t
    }
}

/// Secondary detail, as a theme with or without colour renders it.
pub open spec fn as_muted(colours: bool, t: Seq<char>) -> Seq<char> {
    if colours {
        dim_text(t)
    } else {
        t
    }
}

/// A heading, as a theme with or without colour renders it.
pub open spec fn as_heading(colours: bool, t: Seq<char>) -> Seq<char> {
    if colours {
        bold_text(t)
    } else {
        t
    }
}

impl Theme {
    /// Whether escape codes are emitted.
    pub closed spec fn colours(self) -> bool {
        self.enabled
    }

    /// A theme that emits escape codes exactly when `enabled`.
    pub fn with_colour(enabled: bool) -> (t: Theme)
        ensures
            t.colours() == enabled,
    {
        Theme { enabled }
    }

    /// The theme for standard output: colour only for an interactive
    /// terminal, and never when `NO_COLOR` is set to something or `TERM` is
    /// `dumb`.
    pub fn for_terminal(no_color: Option<String>, term: Option<String>, is_terminal: bool) -> (t:
        Theme)
        ensures
            t.colours() == (is_terminal && !(no_color matches Some(v) && v@.len() > 0)
                && !(term matches Some(t) && t@ == "dumb"@)),
    {
        let asked_for_none = match &no_color {
            Some(v) => v.as_str().unicode_len() > 0,
            None => false,
        };
        let dumb = match &term {
            Some(t) => str_eq(t.as_str(), "dumb"),
            None => false,
        };
        Theme { enabled: is_terminal && !asked_for_none && !dumb }
    }

    /// A theme that never emits escape codes, for tests and JSON paths.
    pub fn plain() -> (t: Theme)
        ensures
            !t.colours(),
    {
        Theme { enabled: false }
    }

    /// A theme that always emits escape codes: what proves that styling a
    /// cell does not disturb its column.
    pub fn coloured() -> (t: Theme)
        ensures
            t.colours(),
    {
        Theme { enabled: true }
    }

    /// Whether escape codes are being emitted at all.
    pub fn is_coloured(self) -> (b: bool)
        ensures
            b == self.colours(),
    {
        self.enabled
    }

    /// A field label: dim.
    pub fn label(self, text: &str) -> (s: String)
        ensures
            s@ == (if self.colours() {
                dim_text(text@)
            } else {
                text@
            }),
    {
        if self.enabled {
            dimmed(text)
        } else {
            owned(text)
        }
    }

    /// The answer the user came for: bold cyan.
    pub fn value(self, text: &str) -> (s: String)
        ensures
            s@ == (if self.colours() {
                fg_text("36"@, bold_text(text@))
            } else {
                text@
            }),
    {
        if self.enabled {
            bold_cyan(text)
        } else {
            owned(text)
        }
    }

    /// Something working as intended: green.
    pub fn good(self, text: &str) -> (s: String)
        ensures
            s@ == (if self.colours() {
                fg_text("32"@, text@)
            } else {
                text@
            }),
    {
        if self.enabled {
            green(text)
        } else {
            owned(text)
        }
    }

    /// Something to notice that is not an error: yellow.
    pub fn warn(self, text: &str) -> (s: String)
        ensures
            s@ == (if self.colours() {
                fg_text("33"@, text@)
            } else {
                text@
            }),
    {
        if self.enabled {
            yellow(text)
        } else {
            owned(text)
        }
    }

    /// A failure: red.
    pub fn bad(self, text: &str) -> (s: String)
        ensures
            s@ == (if self.colours() {
                fg_text("31"@, text@)
            } else {
                text@
            }),
    {
        if self.enabled {
            red(text)
        } else {
            owned(text)
        }
    }

    /// Secondary detail: dim.
    pub fn muted(self, text: &str) -> (s: String)
        ensures
            s@ == (if self.colours() {
                dim_text(text@)
            } else {
                text@
            }),
    {
        if self.enabled {
            dimmed(text)
        } else {
            owned(text)
        }
    }

    /// A heading: bold.
    pub fn heading(self, text: &str) -> (s: String)
        ensures
            s@ == (if self.colours() {
                bold_text(text@)
            } else {
                text@
            }),
    {
        if self.enabled {
            bold(text)
        } else {
            owned(text)
        }
    }

    /// Black on bright white, whatever the terminal's palette: a QR code only
    /// decodes when its dark modules are dark.
    pub fn scannable(self, text: &str) -> (s: String)
        ensures
            s@ == (if self.colours() {
                combo_text("30"@, "107"@, text@)
            } else {
                text@
            }),
    {
        if self.enabled {
            black_on_bright_white(text)
        } else {
            owned(text)
        }
    }
}

/// `s` without its trailing whitespace.
pub open spec fn trimmed_end(s: Seq<char>) -> Seq<char>
    decreases s.len(),
{
    if s.len() > 0 && is_whitespace(s.last()) {
        trimmed_end(s.drop_last())
    } else {
        s
    }
}

/// `s` without its trailing whitespace.
pub fn trim_end(s: &str) -> (r: String)
    ensures
        r@ == trimmed_end(s@),
{
    let mut end = s.unicode_len();
    assert(s@.subrange(0, end as int) =~= s@);
    while end > 0 && whitespace(s.get_char(end - 1))
        invariant
            end <= s@.len(),
            trimmed_end(s@) == trimmed_end(s@.subrange(0, end as int)),
        decreases end,
    {
        assert(s@.subrange(0, end as int).drop_last() =~= s@.subrange(0, end - 1));
        end = end - 1;
    }
    owned(s.substring_char(0, end))
}

/// `n` spaces.
pub open spec fn spaces(n: nat) -> Seq<char> {
    Seq::new(n, |i: int| ' ')
}

/// Append `n` spaces.
pub fn push_spaces(out: &mut String, n: usize)
    ensures
        final(out)@ == old(out)@ + spaces(n as nat),
{
    let mut i: usize = 0;
    while i < n
        invariant
            i <= n,
            out@ == old(out)@ + spaces(i as nat),
        decreases n - i,
    {
        push_char(out, ' ');
        assert(spaces((i + 1) as nat) =~= spaces(i as nat).push(' '));
        i = i + 1;
    }
}

/// A cell padded to `width` plus the two-space gap, unless it is the last.
pub open spec fn padded(cell: Seq<char>, width: int, last: bool) -> Seq<char> {
    if last {
        cell
    } else {
        cell + spaces((if width > cell.len() {
            width - cell.len()
        } else {
            0
        } + 2) as nat)
    }
}

/// Append a cell, padded unless it is the last in its row.
pub fn push_cell(line: &mut String, cell: &str, width: usize, last: bool)
    ensures
        final(line)@ == old(line)@ + padded(cell@, width as int, last),
{
    push_str(line, cell);
    if !last {
        let len = cell.unicode_len();
        let gap = if width > len {
            width - len
        } else {
            0
        };
        push_spaces(line, gap);
        push_spaces(line, 2);
        assert(spaces(gap as nat) + spaces(2) =~= spaces((gap + 2) as nat));
        assert(line@ =~= old(line)@ + padded(cell@, width as int, last));
    }
}

/// The characters of each header.
pub open spec fn header_views(h: Seq<&str>) -> Seq<Seq<char>> {
    h.map_values(|s: &str| s@)
}

/// The characters of each cell of each row.
pub open spec fn row_views(rows: Seq<Vec<String>>) -> Seq<Seq<Seq<char>>> {
    rows.map_values(|r: Vec<String>| cell_views(r))
}

/// The cells of one row, as characters.
pub open spec fn cell_views(r: Vec<String>) -> Seq<Seq<char>> {
    r@.map_values(|c: String| c@)
}

/// The width of column `i`: that of its header or its widest cell.
pub open spec fn column_width(headers: Seq<Seq<char>>, rows: Seq<Seq<Seq<char>>>, i: int) -> int
    decreases rows.len(),
{
    if rows.len() == 0 {
        headers[i].len() as int
    } else {
        let w = column_width(headers, rows.drop_last(), i);
        let r = rows.last();
        if i < r.len() && r[i].len() > w {
            r[i].len() as int
        } else {
            w
        }
    }
}

/// The first `k` cells of a row, each padded to its column's width but the
/// one in the last column.
pub open spec fn laid_out(cells: Seq<Seq<char>>, widths: Seq<int>, columns: int, k: int) -> Seq<char>
    decreases k,
{
    if k <= 0 {
        Seq::empty()
    } else {
        laid_out(cells, widths, columns, k - 1) + padded(cells[k - 1], widths[k - 1], k == columns)
    }
}

/// The smaller of two integers.
pub open spec fn min_int(a: int, b: int) -> int {
    if a < b {
        a
    } else {
        b
    }
}

/// The body of a table: each row laid out, trailing space trimmed, and a
/// newline.
pub open spec fn body_lines(rows: Seq<Seq<Seq<char>>>, widths: Seq<int>, columns: int) -> Seq<char>
    decreases rows.len(),
{
    if rows.len() == 0 {
        Seq::empty()
    } else {
        let r = rows.last();
        body_lines(rows.drop_last(), widths, columns) + trimmed_end(
            laid_out(r, widths, columns, min_int(r.len() as int, columns)),
        ) + seq!['\n']
    }
}

/// A left-aligned table with two spaces between columns: the header line (as
/// a label), then every row; cells beyond the headers are ignored.
pub open spec fn table_text(headers: Seq<Seq<char>>, rows: Seq<Seq<Seq<char>>>, colours: bool) -> Seq<char> {
    let columns = headers.len() as int;
    let widths = Seq::new(headers.len(), |i: int| column_width(headers, rows, i));
    let head = trimmed_end(laid_out(headers, widths, columns, columns));
    (if colours {
        dim_text(head)
    } else {
        head
    }) + seq!['\n'] + body_lines(rows, widths, columns)
}

/// Column widths only grow as rows are considered.
proof fn lemma_column_width_grows(headers: Seq<Seq<char>>, rows: Seq<Seq<Seq<char>>>, i: int)
    ensures
        column_width(headers, rows, i) >= headers[i].len(),
        forall|k: int|
            0 <= k < rows.len() && i < rows[k].len() ==> column_width(headers, rows, i)
                >= #[trigger] rows[k][i].len(),
    decreases rows.len(),
{
    if rows.len() > 0 {
        lemma_column_width_grows(headers, rows.drop_last(), i);
        assert forall|k: int|
            0 <= k < rows.len() && i < rows[k].len() implies column_width(headers, rows, i)
            >= #[trigger] rows[k][i].len() by {
            if k < rows.len() - 1 {
                assert(rows[k] == rows.drop_last()[k]);
            }
        }
    }
}

/// Lay out the first `k` cells of a row.
fn lay_out(cells: &[String], widths: &Vec<usize>, columns: usize, k: usize) -> (line: String)
    requires
        k <= cells@.len(),
        k <= columns == widths@.len(),
    ensures
        line@ == laid_out(
            cells@.map_values(|c: String| c@),
            widths@.map_values(|w: usize| w as int),
            columns as int,
            k as int,
        ),
{
    let ghost cv = cells@.map_values(|c: String| c@);
    let ghost wv = widths@.map_values(|w: usize| w as int);
    let mut line = String::new();
    let mut i: usize = 0;
    while i < k
        invariant
            k <= cells@.len(),
            k <= columns == widths@.len(),
            i <= k,
            cv == cells@.map_values(|c: String| c@),
            wv == widths@.map_values(|w: usize| w as int),
            line@ == laid_out(cv, wv, columns as int, i as int),
        decreases k - i,
    {
        push_cell(&mut line, cells[i].as_str(), widths[i], i + 1 == columns);
        i = i + 1;
    }
    line
}

/// Render rows as a left-aligned table with two spaces between columns.
/// Widths are measured in characters and computed from the content, since
/// interface names range from `lo` to `br-18642d3532b2`.
pub fn table(headers: &[&str], rows: &[Vec<String>], theme: Theme) -> (out: String)
    ensures
        out@ == table_text(header_views(headers@), row_views(rows@), theme.colours()),
{
    let ghost hv = header_views(headers@);
    let ghost rv = row_views(rows@);
    let columns = headers.len();
    let mut widths: Vec<usize> = Vec::new();
    let mut i: usize = 0;
    while i < columns
        invariant
            columns == headers@.len(),
            i <= columns,
            widths@.len() == i,
            hv == header_views(headers@),
            rv == row_views(rows@),
            forall|j: int| 0 <= j < i ==> widths@[j] == column_width(hv, rv, j),
        decreases columns - i,
    {
        let mut w = headers[i].unicode_len();
        let mut k: usize = 0;
        while k < rows.len()
            invariant
                i < columns == headers@.len(),
                k <= rows@.len(),
                hv == header_views(headers@),
                rv == row_views(rows@),
                w == column_width(hv, rv.subrange(0, k as int), i as int),
                widths@.len() == i,
                forall|j: int| 0 <= j < i ==> widths@[j] == column_width(hv, rv, j),
            decreases rows.len() - k,
        {
            assert(rv.subrange(0, k + 1).drop_last() =~= rv.subrange(0, k as int));
            let row = &rows[k];
            if i < row.len() {
                let n = row[i].as_str().unicode_len();
                if n > w {
                    w = n;
                }
            }
            k = k + 1;
        }
        assert(rv.subrange(0, rows@.len() as int) =~= rv);
        widths.push(w);
        i = i + 1;
    }
    let ghost wv = widths@.map_values(|w: usize| w as int);
    assert(wv =~= Seq::new(headers@.len(), |j: int| column_width(hv, rv, j)));
    let mut header_line = String::new();
    let mut h: usize = 0;
    while h < columns
        invariant
            columns == headers@.len() == widths@.len(),
            h <= columns,
            hv == header_views(headers@),
            wv == widths@.map_values(|w: usize| w as int),
            header_line@ == laid_out(hv, wv, columns as int, h as int),
        decreases columns - h,
    {
        push_cell(&mut header_line, headers[h], widths[h], h + 1 == columns);
        h = h + 1;
    }
    let trimmed = trim_end(header_line.as_str());
    let mut out = theme.label(trimmed.as_str());
    push_char(&mut out, '\n');
    let ghost head = out@;
    let mut r: usize = 0;
    while r < rows.len()
        invariant
            r <= rows@.len(),
            columns == headers@.len() == widths@.len(),
            rv == row_views(rows@),
            wv == widths@.map_values(|w: usize| w as int),
            out@ == head + body_lines(rv.subrange(0, r as int), wv, columns as int),
        decreases rows.len() - r,
    {
        assert(rv.subrange(0, r + 1).drop_last() =~= rv.subrange(0, r as int));
        let row = &rows[r];
        let k = if row.len() < columns {
            row.len()
        } else {
            columns
        };
        assert(rv[r as int] == row@.map_values(|c: String| c@));
        let line = lay_out(row.as_slice(), &widths, columns, k);
        let trimmed_line = trim_end(line.as_str());
        push_str(&mut out, trimmed_line.as_str());
        push_char(&mut out, '\n');
        r = r + 1;
    }
    assert(rv.subrange(0, rows@.len() as int) =~= rv);
    out
}

} // verus!
