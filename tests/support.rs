use terminator::convert::{frames_from_entries, Symbol};
use terminator::indent::Indent;
use terminator::text::{centered, decimal, padded_left};
use terminator::theme::{Colors, Effects};
use terminator::{Color, Config, Effect, Frame, InstallError, Location, Style, Theme, Verbosity};

#[test]
fn hash_suffix_is_split_off() {
    let f = Frame::new(0, Some("some::path::hdeadbeefdeadbeef".to_string()), None);
    assert_eq!(f.symbolify(), ("some::path", Some("::hdeadbeefdeadbeef")));
}

#[test]
fn short_or_non_hex_names_are_not_split() {
    let exactly = Frame::new(0, Some("::hdeadbeefdeadbeef".to_string()), None);
    assert_eq!(exactly.symbolify(), ("::hdeadbeefdeadbeef", None));
    let not_hex = Frame::new(0, Some("some::path::hdeadbeefdeadbeeg".to_string()), None);
    assert_eq!(not_hex.symbolify(), ("some::path::hdeadbeefdeadbeeg", None));
    let upper = Frame::new(0, Some("x::hDEADBEEFDEADBEEF".to_string()), None);
    assert_eq!(upper.symbolify(), ("x", Some("::hDEADBEEFDEADBEEF")));
    assert_eq!(Frame::new(0, None, None).symbolify(), ("<unknown>", None));
}

#[test]
fn getters_return_fields() {
    let f = Frame::new(4, Some("n".to_string()), Some(Location::new("f.rs".to_string(), 9)));
    assert_eq!(f.index(), 4);
    assert_eq!(f.name(), Some("n"));
    assert_eq!(f.location().unwrap().file(), "f.rs");
    assert_eq!(f.location().unwrap().line(), 9);
}

#[test]
fn styles_encode_ansi_sequences() {
    assert_eq!(Style::new().style("x"), "x");
    assert_eq!(Style::new().fg(Color::Red).style("x"), "\u{1b}[31mx\u{1b}[0m");
    assert_eq!(
        Style::new().fg(Color::BrightWhite).bg(Color::Blue).style("x"),
        "\u{1b}[97;44mx\u{1b}[0m"
    );
    let s = Style::new().set(Effect::Underline).set(Effect::Bold).fg(Color::Default);
    assert_eq!(s.style("y"), "\u{1b}[39;1;4my\u{1b}[0m");
    let s = s.unset(Effect::Bold);
    assert_eq!(s.style("y"), "\u{1b}[39;4my\u{1b}[0m");
    assert_eq!(Style::new().bg(Color::BrightBlack).style(""), "\u{1b}[100m\u{1b}[0m");
    assert_eq!(Style::new().set(Effect::Strikethrough).style("z"), "\u{1b}[9mz\u{1b}[0m");
}

#[test]
fn themes() {
    let dark = Theme::dark();
    assert_eq!(dark.hidden.style("h"), "\u{1b}[96mh\u{1b}[0m");
    assert_eq!(Theme::new().package.style("p"), "\u{1b}[91mp\u{1b}[0m");
    let light = Theme::light();
    assert_eq!(light.message.style("m"), "\u{1b}[34mm\u{1b}[0m");
    let blank = Theme::blank();
    assert_eq!(blank.error.style("e"), "e");
    let custom = Theme::blank().hash(Style::new().fg(Color::Yellow));
    assert_eq!(custom.hash.style("h"), "\u{1b}[33mh\u{1b}[0m");
    assert_eq!(custom.file.style("f"), "f");
}

#[test]
fn verbosity_from_settings() {
    assert_eq!(Verbosity::decode(b"0"), Verbosity::Minimal);
    assert_eq!(Verbosity::decode(b"1"), Verbosity::Medium);
    assert_eq!(Verbosity::decode(b"full"), Verbosity::Full);
    assert_eq!(Verbosity::decode(b"yes"), Verbosity::Medium);
    assert_eq!(Verbosity::decode(b""), Verbosity::Medium);
    assert_eq!(Verbosity::error(Some(b"0"), Some(b"full")), Some(Verbosity::Minimal));
    assert_eq!(Verbosity::error(None, Some(b"full")), Some(Verbosity::Full));
    assert_eq!(Verbosity::error(None, None), None);
    assert_eq!(Verbosity::panic(Some(b"1")), Some(Verbosity::Medium));
    assert_eq!(Verbosity::panic(None), None);
    assert_eq!(Verbosity::Minimal.env(), "0");
    assert_eq!(Verbosity::Medium.env(), "1");
    assert_eq!(Verbosity::Full.env(), "full");
}

#[test]
fn config_builders() {
    let c = Config::new(Some(b"full"), Some(b"0"));
    assert_eq!(c.error, Verbosity::Full);
    assert_eq!(c.panic, Verbosity::Minimal);
    assert_eq!(c.filters.len(), 2);
    let c = c.panic_verbosity(Verbosity::Medium);
    assert_eq!(c.selected_verbosity(true), Verbosity::Medium);
    assert_eq!(c.selected_verbosity(false), Verbosity::Full);
    let c = c.error_verbosity(Verbosity::Minimal);
    assert_eq!(c.error, Verbosity::Minimal);
    let c = c.verbosity(Verbosity::Full);
    assert_eq!((c.error, c.panic), (Verbosity::Full, Verbosity::Full));
    let b = Config::blank();
    assert!(b.filters.is_empty());
    assert_eq!((b.error, b.panic), (Verbosity::Minimal, Verbosity::Minimal));
    let d = Config::new(None, None);
    assert_eq!((d.error, d.panic), (Verbosity::Minimal, Verbosity::Minimal));
}

#[test]
fn indentation_skips_empty_lines_and_spans_writes() {
    let mut out = String::new();
    let mut indent = Indent::double();
    indent.write_str(&mut out, "a\n\nb");
    assert_eq!(out, "  a\n\n  b");
    indent.write_str(&mut out, "c\n");
    indent.write_str(&mut out, "d");
    assert_eq!(out, "  a\n\n  bc\n  d");
    let mut other = String::from("x");
    Indent::new("--").write_str(&mut other, "\n\ny");
    assert_eq!(other, "x\n\n--y");
}

#[test]
fn number_formatting() {
    assert_eq!(decimal(0), "0");
    assert_eq!(decimal(46), "46");
    assert_eq!(decimal(18446744073709551615), "18446744073709551615");
    assert_eq!(padded_left("7", 2, " "), " 7");
    assert_eq!(padded_left("123", 2, " "), "123");
    assert_eq!(centered("ab", 5, "*"), "*ab**");
    assert_eq!(centered("abcdef", 3, "*"), "abcdef");
}

#[test]
fn symbols_are_numbered_across_entries() {
    let entries = vec![
        vec![Symbol::new(Some("inlined".to_string()), Some("a.rs".to_string()), Some(3)),
             Symbol::new(Some("outer".to_string()), Some("a.rs".to_string()), None)],
        vec![],
        vec![Symbol::new(None, None, Some(9))],
    ];
    let frames = frames_from_entries(entries);
    assert_eq!(
        frames,
        vec![
            Frame::new(0, Some("inlined".to_string()), Some(Location::new("a.rs".to_string(), 3))),
            Frame::new(1, Some("outer".to_string()), None),
            Frame::new(2, None, None),
        ]
    );
}

#[test]
fn error_and_panic_reports() {
    let config = Config::blank().theme(Theme::blank());
    let messages = vec!["outer".to_string(), "inner".to_string()];
    assert_eq!(config.error_message(&messages, None), "\n   0: outer\n   1: inner");
    assert_eq!(config.error_message(&messages, Some("x\ny")), "\n   0: outer\n   1: inner\n\n  x\n  y");
    let report = config.error_report(&messages, Some("  0: main"), false);
    assert!(report.starts_with("\n   0: outer\n   1: inner\n\n  ━"));
    let loc = Location::new("src/main.rs".to_string(), 3);
    let panic = config.panic_message(Some("boom"), Some(&loc), "bt");
    assert_eq!(
        panic,
        "The application panicked (crashed).\nMessage:  boom\nLocation: src/main.rs:3\n\n  bt\n"
    );
    let panic = config.panic_message(None, None, "");
    assert_eq!(
        panic,
        "The application panicked (crashed).\nMessage:  <non string panic payload>\nLocation: <unknown>\n\n\n"
    );
    assert!(config.panic_report(Some("boom"), None, "").contains("<empty backtrace>"));
}

#[test]
fn install_error_message() {
    assert_eq!(InstallError.message(), "`Config` was already installed globally");
}

#[test]
fn stray_effect_bits_write_no_codes() {
    let s = Style { colors: Colors::new(), effects: Effects { bytes: 1 } };
    assert_eq!(s.style("x"), "x");
    let t = Style { colors: Colors::new(), effects: Effects { bytes: 1 } }.set(Effect::Italic);
    assert_eq!(t.style("x"), "\u{1b}[3mx\u{1b}[0m");
}
