use autonet::cli::qr::{caption, paint, render};
use autonet::cli::render::Theme;

#[test]
fn a_plain_code_is_drawn_in_half_blocks_and_ends_with_a_newline() {
    let url = "http://192.168.1.20:3000";
    let code = render(url, Theme::plain()).expect("a short URL encodes");
    assert!(code.ends_with('\n'));
    assert!(!code.contains(url), "the picture is not the URL");
    assert!(code.lines().count() > 10, "{code}");
    for c in code.chars().filter(|c| *c != '\n') {
        assert!(matches!(c, ' ' | '\u{2580}' | '\u{2584}' | '\u{2588}'), "{c:?}");
    }
}

#[test]
fn a_coloured_code_forces_black_on_white_line_by_line() {
    let url = "http://192.168.1.20:3000";
    let code = render(url, Theme::coloured()).expect("a short URL encodes");
    for line in code.lines() {
        assert!(line.starts_with("\u{1b}[30;107m"), "{line:?}");
        assert!(line.ends_with("\u{1b}[0m"), "{line:?}");
    }
    let plain = render(url, Theme::plain()).unwrap();
    assert_eq!(code.lines().count(), plain.lines().count());
}

#[test]
fn a_url_too_long_for_a_code_is_refused_with_the_reason() {
    let url = format!("http://{}", "a".repeat(4000));
    let refusal = render(&url, Theme::plain()).unwrap_err();
    assert!(refusal.starts_with("could not encode http://aaa"), "{refusal}");
    assert!(refusal.ends_with(" as a QR code: data too long"), "{refusal}");
}

#[test]
fn painting_keeps_every_line() {
    assert_eq!(paint("ab\ncd", Theme::plain()), "ab\ncd\n");
    assert_eq!(paint("", Theme::plain()), "");
}

#[test]
fn the_caption_warns_about_contrast_only_without_colour() {
    assert_eq!(
        caption("http://192.168.1.20:3000", Theme::plain()),
        "  Scan       http://192.168.1.20:3000\n  Rendered for a dark terminal. On a light one, unset NO_COLOR so AutoNet can set the contrast itself.\n"
    );
    let coloured = caption("http://192.168.1.20:3000", Theme::coloured());
    assert!(!coloured.contains("Rendered for a dark terminal"));
    assert_eq!(coloured.lines().count(), 1);
}
