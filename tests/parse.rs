use terminator::parse::{parse, BacktraceParser};
use terminator::{Frame, Location};

const SAMPLE: &str = "\
   0: anyhow::error::<impl anyhow::Error>::msg
             at /home/user/.cargo/registry/src/index.crates.io-6f17d22bba15001f/anyhow-1.0.81/src/error.rs:83:36
   1: anyhow::__private::format_err
             at /home/user/.cargo/registry/src/index.crates.io-6f17d22bba15001f/anyhow-1.0.81/src/lib.rs:688:13
   2: aoc2023::day1::exec
             at ./aoc2023/src/day1.rs:52:17
   3: aoc2023::day1::first
             at ./aoc2023/src/day1.rs:22:5
   4: core::ops::function::FnOnce::call_once
             at /rustc/7cf61ebde7b22796c69757901dd346d0fe70bd97/library/core/src/ops/function.rs:250:5
   5: <F as aoc::Eval<A>>::eval
             at ./src/lib.rs:17:9
   6: aoc::main
             at ./src/main.rs:46:18
   7: core::ops::function::FnOnce::call_once
             at /rustc/7cf61ebde7b22796c69757901dd346d0fe70bd97/library/core/src/ops/function.rs:250:5
   8: std::sys_common::backtrace::__rust_begin_short_backtrace
             at /rustc/7cf61ebde7b22796c69757901dd346d0fe70bd97/library/std/src/sys_common/backtrace.rs:155:18
   9: std::rt::lang_start::{{closure}}
             at /rustc/7cf61ebde7b22796c69757901dd346d0fe70bd97/library/std/src/rt.rs:166:18
  10: core::ops::function::impls::<impl core::ops::function::FnOnce<A> for &F>::call_once
             at /rustc/7cf61ebde7b22796c69757901dd346d0fe70bd97/library/core/src/ops/function.rs:284:13
  11: std::panicking::try::do_call
             at /rustc/7cf61ebde7b22796c69757901dd346d0fe70bd97/library/std/src/panicking.rs:554:40
  12: std::panicking::try
             at /rustc/7cf61ebde7b22796c69757901dd346d0fe70bd97/library/std/src/panicking.rs:518:19
  13: std::panic::catch_unwind
             at /rustc/7cf61ebde7b22796c69757901dd346d0fe70bd97/library/std/src/panic.rs:142:14
  14: std::rt::lang_start_internal::{{closure}}
             at /rustc/7cf61ebde7b22796c69757901dd346d0fe70bd97/library/std/src/rt.rs:148:48
  15: std::panicking::try::do_call
             at /rustc/7cf61ebde7b22796c69757901dd346d0fe70bd97/library/std/src/panicking.rs:554:40
  16: std::panicking::try
             at /rustc/7cf61ebde7b22796c69757901dd346d0fe70bd97/library/std/src/panicking.rs:518:19
  17: std::panic::catch_unwind
             at /rustc/7cf61ebde7b22796c69757901dd346d0fe70bd97/library/std/src/panic.rs:142:14
  18: std::rt::lang_start_internal
             at /rustc/7cf61ebde7b22796c69757901dd346d0fe70bd97/library/std/src/rt.rs:148:20
  19: std::rt::lang_start
             at /rustc/7cf61ebde7b22796c69757901dd346d0fe70bd97/library/std/src/rt.rs:165:17
  20: main
  21: <unknown>
  22: __libc_start_main
  23: _start
";

fn named(index: usize, name: &str, file: &str, line: u32) -> Frame {
    Frame::new(index, Some(name.to_string()), Some(Location::new(file.to_string(), line)))
}

#[test]
fn full_backtrace() {
    let backtrace: Vec<Frame> = parse(SAMPLE);
    assert_eq!(
        backtrace.len(),
        24,
        "Backtrace had wrong length {backtrace:#?}"
    );
}

#[test]
fn plain_frame() {
    let frame = "  20: main";
    let mut parser = BacktraceParser::new(frame);
    assert_eq!(
        parser.next(),
        Some(Frame::new(20, Some("main".to_string()), None))
    );
    assert_eq!(parser.next(), None);
    let frame = "  21: <unknown>";
    let mut parser = BacktraceParser::new(frame);
    assert_eq!(parser.next(), Some(Frame::new(21, None, None)));
    assert_eq!(parser.next(), None);
}

#[test]
fn located_frame() {
    let frame = "   6: aoc::main\n             at ./src/main.rs:46:18";
    let mut parser = BacktraceParser::new(frame);
    assert_eq!(parser.next(), Some(named(6, "aoc::main", "./src/main.rs", 46)));
    assert_eq!(parser.next(), None);
}

#[test]
fn full_backtrace_indices_follow_the_text() {
    let frames = parse(SAMPLE);
    for (position, frame) in frames.iter().enumerate() {
        assert_eq!(frame.index(), position);
    }
    assert_eq!(frames[20], Frame::new(20, Some("main".to_string()), None));
    assert_eq!(frames[21], Frame::new(21, None, None));
    assert_eq!(
        frames[1],
        named(
            1,
            "anyhow::__private::format_err",
            "/home/user/.cargo/registry/src/index.crates.io-6f17d22bba15001f/anyhow-1.0.81/src/lib.rs",
            688
        )
    );
}

#[test]
fn empty_text_has_no_frames() {
    assert!(parse("").is_empty());
    let mut parser = BacktraceParser::new("");
    assert_eq!(parser.next(), None);
}

#[test]
fn location_line_is_optional_between_frames() {
    let text = "  3: a::b\n  4: c::d\n      at x.rs:7:1\n  5: e";
    let frames = parse(text);
    assert_eq!(
        frames,
        vec![
            Frame::new(3, Some("a::b".to_string()), None),
            named(4, "c::d", "x.rs", 7),
            Frame::new(5, Some("e".to_string()), None),
        ]
    );
}

#[test]
fn crlf_line_endings_are_accepted() {
    let frames = parse("  1: f\r\n     at src/a.rs:2:3\r\n  2: g\r\n");
    assert_eq!(frames, vec![named(1, "f", "src/a.rs", 2), Frame::new(2, Some("g".to_string()), None)]);
}

#[test]
fn file_names_may_hold_colons() {
    let frames = parse("  0: f\n     at C:\\src\\a.rs:12:4");
    assert_eq!(frames, vec![named(0, "f", "C:\\src\\a.rs", 12)]);
}

#[test]
fn malformed_location_line_starts_the_next_frame() {
    // The second line is not a location; as a symbol line it is malformed too,
    // so parsing ends after the first frame.
    let frames = parse("  0: f\n     at src/a.rs:x:4\n  1: g");
    assert_eq!(frames, vec![Frame::new(0, Some("f".to_string()), None)]);
}

#[test]
fn malformed_index_ends_parsing() {
    let mut parser = BacktraceParser::new("  x1: f\n  2: g");
    assert_eq!(parser.next(), None);
    assert_eq!(parser.next(), None);
    assert!(parse("  0: f\n  99999999999999999999999: g\n  2: h").len() == 1);
}

#[test]
fn name_keeps_inner_separators() {
    let frames = parse("  7: <T as core::fmt::Debug>::fmt: extra  ");
    assert_eq!(
        frames,
        vec![Frame::new(7, Some("<T as core::fmt::Debug>::fmt: extra".to_string()), None)]
    );
}

#[test]
fn parser_can_be_stopped_early() {
    let mut parser = BacktraceParser::new(SAMPLE);
    let first = parser.next().unwrap();
    let second = parser.next().unwrap();
    assert_eq!(first.index(), 0);
    assert_eq!(second.index(), 1);
    assert_eq!(second.name(), Some("anyhow::__private::format_err"));
    assert_eq!(second.location().map(Location::line), Some(688));
}

#[test]
fn empty_name_is_a_frame() {
    let mut parser = BacktraceParser::new("  5: \n  6: g\n     at a.rs:1:2");
    assert_eq!(parser.next(), Some(Frame::new(5, Some(String::new()), None)));
    assert_eq!(parser.next(), Some(named(6, "g", "a.rs", 1)));
    assert_eq!(parser.next(), None);
}

#[test]
fn name_keeps_leading_space_after_separator() {
    assert_eq!(parse("  7:  x "), vec![Frame::new(7, Some(" x".to_string()), None)]);
}
