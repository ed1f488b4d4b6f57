use revd::text::replace;
use revd::ui::{bold, color_enabled, cyan, dim, green, missing, ok, pad, visible_len, yellow};

#[test]
fn visible_len_ignores_escape_sequences() {
    assert_eq!(visible_len("plain"), 5);
    assert_eq!(visible_len("\x1b[32m●\x1b[0m"), 1);
    assert_eq!(visible_len("\x1b[1mbold\x1b[0m text"), 9);
}

#[test]
fn styling_is_inert_when_disabled() {
    // Piped output: colour is off.
    assert_eq!(bold(false, "x"), "x", "piped output must carry no escape codes");
    assert_eq!(dim(false, "x"), "x");
    assert!(!ok(false).contains('\x1b'));
}

#[test]
fn pad_aligns_styled_and_plain_identically() {
    assert_eq!(pad("ab", 5).len() - 2, 3);
    let styled = pad("\x1b[32mab\x1b[0m", 5);
    assert_eq!(visible_len(&styled), 5);
}

#[test]
fn styling_wraps_in_escape_codes_when_enabled() {
    assert_eq!(bold(true, "x"), "\x1b[1mx\x1b[0m");
    assert_eq!(dim(true, "x"), "\x1b[2mx\x1b[0m");
    assert_eq!(green(true, "x"), "\x1b[32mx\x1b[0m");
    assert_eq!(yellow(true, "x"), "\x1b[33mx\x1b[0m");
    assert_eq!(cyan(true, "x"), "\x1b[36mx\x1b[0m");
    assert_eq!(visible_len(&ok(true)), visible_len(&ok(false)));
    assert_eq!(visible_len(&missing(true)), visible_len(&missing(false)));
}

#[test]
fn colour_needs_a_terminal_and_no_opt_out() {
    assert!(color_enabled(true, false, Some("xterm-256color")));
    assert!(color_enabled(true, false, None));
    assert!(!color_enabled(false, false, Some("xterm")));
    assert!(!color_enabled(true, true, Some("xterm")));
    assert!(!color_enabled(true, false, Some("dumb")));
}

#[test]
fn pad_never_truncates() {
    assert_eq!(pad("abcdef", 3), "abcdef");
    assert_eq!(pad("", 2), "  ");
}

#[test]
fn replace_follows_str_replace() {
    for (s, f, t) in [("ab", "", "x"), ("", "", "x"), ("aaa", "aa", "b"), ("a.b.c", ".", "::"), ("", "a", "b")] {
        assert_eq!(replace(s, f, t), s.replace(f, t), "{:?}", (s, f, t));
    }
}
