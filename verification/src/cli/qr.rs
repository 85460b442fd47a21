//! The network URL as a QR code a phone camera can open.
//!
//! The code is drawn with two rows of modules per line of text. A dark
//! module has to be dark when scanned: with colour, every line is forced to
//! black on bright white; without it, the picture is drawn inverted, for the
//! dark terminal that is the common case.

use vstd::prelude::*;

use crate::cli::render::{as_label, as_muted, as_value, combo_text, Theme};
use crate::text::{lines_of, lines_state, owned, push_char, push_range, push_str, without_cr};

verus! {

/// The picture the `qrcode` crate draws for `url` at error-correction
/// level M, quiet zone included, with dark modules dark; or the text of its
/// error when the data cannot be encoded.
pub uninterp spec fn qr_image(url: Seq<char>) -> Result<Seq<char>, Seq<char>>;

/// The same picture with dark and light swapped.
pub uninterp spec fn qr_image_inverted(url: Seq<char>) -> Result<Seq<char>, Seq<char>>;

/// Draw `url` as a QR code with `qrcode`'s `QrCode::with_error_correction_level`
/// at level M, rendered with its two-rows-per-line Unicode renderer and a
/// quiet zone. Trusted: the picture, or the error's text, is the crate's,
/// named by [`qr_image`] as a function of the URL alone.
#[verifier::external_body]
fn encode(url: &str) -> (r: Result<String, String>)
    ensures
        match r {
            Ok(image) => qr_image(url@) == Ok::<Seq<char>, Seq<char>>(image@),
            Err(e) => qr_image(url@) == Err::<Seq<char>, Seq<char>>(e@),
        },
{
    match qrcode::QrCode::with_error_correction_level(url, qrcode::EcLevel::M) {
        Ok(code) => Ok(code.render::<qrcode::render::unicode::Dense1x2>().quiet_zone(true).build()),
        Err(e) => Err(e.to_string()),
    }
}

/// As [`encode`], with the renderer's dark and light colours swapped.
/// Trusted in the same way; the picture is named by [`qr_image_inverted`].
#[verifier::external_body]
fn encode_inverted(url: &str) -> (r: Result<String, String>)
    ensures
        match r {
            Ok(image) => qr_image_inverted(url@) == Ok::<Seq<char>, Seq<char>>(image@),
            Err(e) => qr_image_inverted(url@) == Err::<Seq<char>, Seq<char>>(e@),
        },
{
    match qrcode::QrCode::with_error_correction_level(url, qrcode::EcLevel::M) {
        Ok(code) => Ok(
            code.render::<qrcode::render::unicode::Dense1x2>().quiet_zone(true).dark_color(
                qrcode::render::unicode::Dense1x2::Light,
            ).light_color(qrcode::render::unicode::Dense1x2::Dark).build(),
        ),
        Err(e) => Err(e.to_string()),
    }
}

/// A line forced to black on bright white where the theme has colour.
pub open spec fn as_scannable(colours: bool, t: Seq<char>) -> Seq<char> {
    if colours {
        combo_text("30"@, "107"@, t)
    } else {
        t
    }
}

/// Every line of a picture, made scannable and ended with a newline.
pub open spec fn painted(lines: Seq<Seq<char>>, colours: bool) -> Seq<char>
    decreases lines.len(),
{
    if lines.len() == 0 {
        Seq::empty()
    } else {
        painted(lines.drop_last(), colours) + as_scannable(colours, lines.last()) + "\n"@
    }
}

/// Paint every line of `image`, as [`painted`] says.
pub fn paint(image: &str, theme: Theme) -> (out: String)
    ensures
        out@ == painted(lines_of(image@), theme.colours()),
{
    let n = image.unicode_len();
    let mut out = String::new();
    let mut line = String::new();
    let ghost mut done: Seq<Seq<char>> = Seq::empty();
    let mut i: usize = 0;
    while i < n
        invariant
            n == image@.len(),
            i <= n,
            (done, line@) == lines_state(image@.subrange(0, i as int)),
            out@ == painted(done, theme.colours()),
        decreases n - i,
    {
        let c = image.get_char(i);
        assert(image@.subrange(0, i + 1).drop_last() =~= image@.subrange(0, i as int));
        if c == '\n' {
            let k = line.unicode_len();
            let mut body = String::new();
            if k > 0 && line.get_char(k - 1) == '\r' {
                push_range(&mut body, line.as_str(), 0, k - 1);
                assert(body@ =~= line@.drop_last());
            } else {
                push_range(&mut body, line.as_str(), 0, k);
                assert(body@ =~= line@);
            }
            let ghost before = out@;
            proof {
                let prev = done;
                done = prev.push(without_cr(line@));
                assert(done.drop_last() =~= prev);
                reveal_strlit("\n");
            }
            push_str(&mut out, theme.scannable(body.as_str()).as_str());
            push_char(&mut out, '\n');
            assert(out@ =~= before + as_scannable(theme.colours(), body@) + "\n"@);
            line = String::new();
        } else {
            push_char(&mut line, c);
        }
        i = i + 1;
    }
    assert(image@.subrange(0, n as int) =~= image@);
    if line.unicode_len() > 0 {
        let ghost last = done.push(line@);
        let ghost before = out@;
        assert(last.drop_last() =~= done);
        proof {
            reveal_strlit("\n");
        }
        push_str(&mut out, theme.scannable(line.as_str()).as_str());
        push_char(&mut out, '\n');
        assert(out@ =~= before + as_scannable(theme.colours(), line@) + "\n"@);
    }
    out
}

/// The refusal when the URL cannot be encoded.
pub open spec fn unencodable_text(url: Seq<char>, why: Seq<char>) -> Seq<char> {
    "could not encode "@ + url + " as a QR code: "@ + why
}

/// What `--qr` prints for `url`: with colour, the picture with every line
/// made scannable; without, the inverted picture and a newline.
pub open spec fn qr_text(url: Seq<char>, colours: bool) -> Result<Seq<char>, Seq<char>> {
    if colours {
        match qr_image(url) {
            Ok(image) => Ok(painted(lines_of(image), true)),
            Err(e) => Err(unencodable_text(url, e)),
        }
    } else {
        match qr_image_inverted(url) {
            Ok(image) => Ok(image + "\n"@),
            Err(e) => Err(unencodable_text(url, e)),
        }
    }
}

/// Render `url` as a QR code, as [`qr_text`] says.
pub fn render(url: &str, theme: Theme) -> (r: Result<String, String>)
    ensures
        match qr_text(url@, theme.colours()) {
            Ok(t) => r matches Ok(s) && s@ == t,
            Err(t) => r matches Err(s) && s@ == t,
        },
{
    let drawn = if theme.is_coloured() {
        encode(url)
    } else {
        encode_inverted(url)
    };
    match drawn {
        Ok(image) => if theme.is_coloured() {
            Ok(paint(image.as_str(), theme))
        } else {
            let mut out = image;
            proof {
                reveal_strlit("\n");
            }
            let ghost before = out@;
            push_char(&mut out, '\n');
            assert(out@ =~= before + "\n"@);
            Ok(out)
        },
        Err(why) => {
            let mut message = owned("could not encode ");
            push_str(&mut message, url);
            push_str(&mut message, " as a QR code: ");
            push_str(&mut message, why.as_str());
            Err(message)
        },
    }
}

/// The caption printed above the code: the URL it opens, and, without
/// colour, a note that it is drawn for a dark terminal.
pub open spec fn caption_text(url: Seq<char>, colours: bool) -> Seq<char> {
    "  "@ + as_label(colours, "Scan     "@) + "  "@ + as_value(colours, url) + "\n"@ + (if colours {
        Seq::empty()
    } else {
        "  "@ + as_muted(
            colours,
            "Rendered for a dark terminal. On a light one, unset NO_COLOR so AutoNet can set the contrast itself."@,
        ) + "\n"@
    })
}

/// The caption, as [`caption_text`] says.
pub fn caption(url: &str, theme: Theme) -> (c: String)
    ensures
        c@ == caption_text(url@, theme.colours()),
{
    let mut out = owned("  ");
    push_str(&mut out, theme.label("Scan     ").as_str());
    push_str(&mut out, "  ");
    push_str(&mut out, theme.value(url).as_str());
    push_str(&mut out, "\n");
    if !theme.is_coloured() {
        push_str(&mut out, "  ");
        push_str(
            &mut out,
            theme.muted(
                "Rendered for a dark terminal. On a light one, unset NO_COLOR so AutoNet can set the contrast itself.",
            ).as_str(),
        );
        push_str(&mut out, "\n");
    }
    assert(out@ =~= caption_text(url@, theme.colours()));
    out
}

} // verus!
