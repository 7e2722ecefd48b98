use terminator::filter::{apply_filters, internal, runtime, sort_frames};
use terminator::parse::parse;
use terminator::render::{frame_line, hidden_line, layout, render_frames, Row};
use terminator::{Config, Filter, Frame, FrameFilter, Location, Theme, Verbosity};

const SAMPLE: &str = "\
   0: anyhow::error::<impl anyhow::Error>::msg
             at /home/user/.cargo/registry/src/index.crates.io-6f17d22bba15001f/anyhow-1.0.81/src/error.rs:83:36
   1: anyhow::__private::format_err
             at /home/user/.cargo/registry/src/index.crates.io-6f17d22bba15001f/anyhow-1.0.81/src/lib.rs:688:13
   2: aoc2023::day1::exec
             at ./aoc2023/src/day1.rs:52:17
   3: aoc2023::day1::first
             at ./aoc2023/src/day1.rs:22:5
   4: core::ops::function::FnOnce::call_once
             at /rustc/7cf61ebde7b22796c69757901dd346d0fe70bd97/library/core/src/ops/function.rs:250:5
   5: <F as aoc::Eval<A>>::eval
             at ./src/lib.rs:17:9
   6: aoc::main
             at ./src/main.rs:46:18
   7: core::ops::function::FnOnce::call_once
             at /rustc/7cf61ebde7b22796c69757901dd346d0fe70bd97/library/core/src/ops/function.rs:250:5
   8: std::sys_common::backtrace::__rust_begin_short_backtrace
             at /rustc/7cf61ebde7b22796c69757901dd346d0fe70bd97/library/std/src/sys_common/backtrace.rs:155:18
   9: std::rt::lang_start::{{closure}}
             at /rustc/7cf61ebde7b22796c69757901dd346d0fe70bd97/library/std/src/rt.rs:166:18
  10: core::ops::function::impls::<impl core::ops::function::FnOnce<A> for &F>::call_once
             at /rustc/7cf61ebde7b22796c69757901dd346d0fe70bd97/library/core/src/ops/function.rs:284:13
  11: std::panicking::try::do_call
             at /rustc/7cf61ebde7b22796c69757901dd346d0fe70bd97/library/std/src/panicking.rs:554:40
  12: std::panicking::try
             at /rustc/7cf61ebde7b22796c69757901dd346d0fe70bd97/library/std/src/panicking.rs:518:19
  13: std::panic::catch_unwind
             at /rustc/7cf61ebde7b22796c69757901dd346d0fe70bd97/library/std/src/panic.rs:142:14
  14: std::rt::lang_start_internal::{{closure}}
             at /rustc/7cf61ebde7b22796c69757901dd346d0fe70bd97/library/std/src/rt.rs:148:48
  15: std::panicking::try::do_call
             at /rustc/7cf61ebde7b22796c69757901dd346d0fe70bd97/library/std/src/panicking.rs:554:40
  16: std::panicking::try
             at /rustc/7cf61ebde7b22796c69757901dd346d0fe70bd97/library/std/src/panicking.rs:518:19
  17: std::panic::catch_unwind
             at /rustc/7cf61ebde7b22796c69757901dd346d0fe70bd97/library/std/src/panic.rs:142:14
  18: std::rt::lang_start_internal
             at /rustc/7cf61ebde7b22796c69757901dd346d0fe70bd97/library/std/src/rt.rs:148:20
  19: std::rt::lang_start
             at /rustc/7cf61ebde7b22796c69757901dd346d0fe70bd97/library/std/src/rt.rs:165:17
  20: main
  21: <unknown>
  22: __libc_start_main
  23: _start
";

fn plain(index: usize, name: &str) -> Frame {
    Frame::new(index, Some(name.to_string()), None)
}

fn at(index: usize, name: &str, file: &str) -> Frame {
    Frame::new(index, Some(name.to_string()), Some(Location::new(file.to_string(), 1)))
}

fn indices(frames: &[Frame]) -> Vec<usize> {
    frames.iter().map(Frame::index).collect()
}

#[test]
fn default_filters_keep_the_users_frames() {
    let mut frames = parse(SAMPLE);
    assert_eq!(frames.len(), 24);
    apply_filters(&Frame::default_filters(), &mut frames);
    assert_eq!(indices(&frames), vec![2, 3, 4, 5, 6, 7]);
    assert_eq!(frames[0].name(), Some("aoc2023::day1::exec"));
}

#[test]
fn runtime_trim_without_markers_keeps_everything() {
    let mut frames = vec![plain(0, "a"), plain(1, "b"), plain(2, "c")];
    runtime(&mut frames);
    assert_eq!(indices(&frames), vec![0, 1, 2]);
}

#[test]
fn runtime_trim_uses_last_panic_frame_and_first_init_frame() {
    let mut frames = vec![
        plain(0, "core::panicking::panic_fmt"),
        plain(1, "user::a"),
        plain(2, "rust_begin_unwind"),
        plain(3, "user::b"),
        at(4, "std::rt::lang_start::{{closure}}", "rt.rs"),
        plain(5, "user::c"),
        at(6, "std::rt::lang_start::inner", "rt.rs"),
    ];
    runtime(&mut frames);
    assert_eq!(indices(&frames), vec![3]);
}

#[test]
fn runtime_init_needs_no_location() {
    let mut frames = vec![plain(0, "user::a"), plain(1, "std::rt::lang_start::x")];
    runtime(&mut frames);
    assert_eq!(indices(&frames), vec![0]);
}

#[test]
fn harness_closure_needs_its_file() {
    let mut frames = vec![plain(0, "user::a"), plain(1, "{{closure}}"), at(2, "{{closure}}", "src/other.rs")];
    runtime(&mut frames);
    assert_eq!(indices(&frames), vec![0, 1, 2]);
}

#[test]
fn runtime_trim_may_leave_nothing() {
    let mut frames = vec![at(0, "std::rt::lang_start::x", "rt.rs"), plain(1, "rust_begin_unwind")];
    runtime(&mut frames);
    assert!(frames.is_empty());
}

#[test]
fn test_harness_closure_counts_as_runtime() {
    let mut frames = vec![plain(0, "user::a"), at(1, "{{closure}}", "src/libtest/lib.rs"), plain(2, "user::b")];
    runtime(&mut frames);
    assert_eq!(indices(&frames), vec![0]);
}

#[test]
fn internal_frames_are_removed_anywhere() {
    let mut frames = vec![
        plain(0, "eyre::x"),
        plain(1, "user::a"),
        plain(2, "terminator::y"),
        Frame::new(3, None, None),
        plain(4, "anyhow::z"),
    ];
    internal(&mut frames);
    assert_eq!(indices(&frames), vec![1, 3]);
}

#[test]
fn dependency_classification() {
    assert!(plain(0, "std::io::x").is_dependency_code());
    assert!(plain(0, "main").is_dependency_code());
    assert!(!plain(0, "aoc::main").is_dependency_code());
    assert!(at(0, "aoc::f", "/rustc/abc/lib.rs").is_dependency_code());
    assert!(at(0, "aoc::f", "/home/u/.cargo/registry/src/x/lib.rs").is_dependency_code());
    assert!(!at(0, "aoc::f", "./src/main.rs").is_dependency_code());
    assert!(!Frame::new(0, None, None).is_dependency_code());
    assert!(plain(0, "rust_begin_unwind").is_post_panic_code());
    assert!(!Frame::new(0, None, None).is_post_panic_code());
    assert!(plain(0, "anyhow::msg").is_internal_machinery());
}

#[test]
fn sorting_restores_index_order_and_keeps_ties() {
    let mut frames = vec![plain(5, "e"), plain(1, "a"), plain(3, "c"), plain(1, "b")];
    sort_frames(&mut frames);
    assert_eq!(indices(&frames), vec![1, 1, 3, 5]);
    assert_eq!(frames[0].name(), Some("a"));
    assert_eq!(frames[1].name(), Some("b"));
}

struct Reverse;

impl FrameFilter for Reverse {
    fn apply(&self, frames: &mut Vec<Frame>) {
        frames.reverse();
        frames.pop();
    }
}

#[test]
fn custom_filters_are_followed_by_sorting() {
    let mut frames = vec![plain(0, "a"), plain(1, "b"), plain(2, "c")];
    let filters = vec![Filter::Custom(Box::new(Reverse))];
    apply_filters(&filters, &mut frames);
    assert_eq!(indices(&frames), vec![1, 2]);
}

#[test]
fn layout_marks_each_gap_once() {
    let frames = vec![plain(2, "a"), plain(3, "b"), plain(5, "c")];
    let rows = layout(frames, 9);
    assert_eq!(
        rows,
        vec![
            Row::Hidden(0, 1),
            Row::Shown(plain(2, "a")),
            Row::Shown(plain(3, "b")),
            Row::Hidden(4, 4),
            Row::Shown(plain(5, "c")),
            Row::Hidden(6, 9),
        ]
    );
}

#[test]
fn layout_without_gaps_has_no_markers() {
    let rows = layout(vec![plain(0, "a"), plain(1, "b")], 1);
    assert_eq!(rows, vec![Row::Shown(plain(0, "a")), Row::Shown(plain(1, "b"))]);
    assert_eq!(layout(Vec::new(), 3), vec![Row::Hidden(0, 3)]);
}

#[test]
fn hidden_marker_text() {
    let theme = Theme::blank();
    let one = hidden_line(&theme, 1);
    assert_eq!(one.chars().count(), 80);
    assert_eq!(one.trim(), "⋮ 1 frame hidden ⋮");
    assert!(one.starts_with(&" ".repeat(31)));
    let many = hidden_line(&theme, 16);
    assert_eq!(many, format!("{:^80}", "⋮ 16 frames hidden ⋮"));
}

#[test]
fn frame_line_text() {
    let theme = Theme::blank();
    let f = Frame::new(
        6,
        Some("aoc::main::h0123456789abcdef".to_string()),
        Some(Location::new("./src/main.rs".to_string(), 46)),
    );
    assert_eq!(frame_line(&theme, &f), " 6: aoc::main::h0123456789abcdef\n    at ./src/main.rs:46");
    let g = Frame::new(123, None, None);
    assert_eq!(frame_line(&theme, &g), "123: <unknown>\n    at <unknown>");
    let dark = Theme::dark();
    let h = plain(1, "std::x::h0123456789abcdef");
    assert_eq!(
        frame_line(&dark, &h),
        " 1: \u{1b}[32mstd::x\u{1b}[0m\u{1b}[90m::h0123456789abcdef\u{1b}[0m\n    at <unknown>"
    );
}

#[test]
fn render_collapses_hidden_frames() {
    let theme = Theme::blank();
    let out = render_frames(&theme, vec![plain(2, "a"), plain(4, "b")], 6);
    let expected = format!(
        "{:━^80}\n{:^80}\n 2: a\n    at <unknown>\n{:^80}\n 4: b\n    at <unknown>\n{:^80}",
        " BACKTRACE ", "⋮ 2 frames hidden ⋮", "⋮ 1 frame hidden ⋮", "⋮ 2 frames hidden ⋮"
    );
    assert_eq!(out, expected);
}

#[test]
fn end_to_end_report() {
    let config = Config::new(None, None).theme(Theme::blank());
    let out = config.render_backtrace_text(SAMPLE, false);
    let lines: Vec<&str> = out.lines().collect();
    assert_eq!(lines[0], format!("{:━^80}", " BACKTRACE "));
    assert_eq!(lines[1], format!("{:^80}", "⋮ 2 frames hidden ⋮"));
    assert_eq!(lines[2], " 2: aoc2023::day1::exec");
    assert_eq!(lines[3], "    at ./aoc2023/src/day1.rs:52");
    assert_eq!(lines[12], " 7: core::ops::function::FnOnce::call_once");
    assert_eq!(lines[14], format!("{:^80}", "⋮ 16 frames hidden ⋮"));
    assert_eq!(lines.len(), 15);
}

#[test]
fn full_verbosity_shows_every_frame() {
    let config = Config::new(None, Some(b"full")).theme(Theme::blank());
    assert_eq!(config.selected_verbosity(true), Verbosity::Full);
    let out = config.render_backtrace_text(SAMPLE, true);
    assert!(!out.contains("hidden"));
    assert_eq!(out.lines().count(), 1 + 24 * 2);
}

#[test]
fn empty_backtrace_placeholder() {
    let config = Config::blank().theme(Theme::blank());
    let out = config.render_backtrace(Vec::new(), false);
    assert_eq!(out, format!("{:━^80}{:^80}", " BACKTRACE ", "<empty backtrace>"));
}

#[test]
fn filtering_everything_leaves_one_marker() {
    let config = Config::blank().theme(Theme::blank()).filter(Filter::Internal);
    let out = config.render_backtrace(vec![plain(0, "eyre::a"), plain(1, "eyre::b")], false);
    assert_eq!(out, format!("{:━^80}\n{:^80}", " BACKTRACE ", "⋮ 2 frames hidden ⋮"));
}

#[test]
fn unsorted_frames_are_shown_in_index_order() {
    let config = Config::blank().theme(Theme::blank());
    let out = config.render_backtrace(vec![plain(1, "b"), plain(0, "a")], false);
    assert_eq!(
        out,
        format!("{:━^80}\n 0: a\n    at <unknown>\n 1: b\n    at <unknown>", " BACKTRACE ")
    );
}

#[test]
fn largest_index_is_laid_out() {
    let rows = layout(vec![plain(usize::MAX, "x")], usize::MAX);
    assert_eq!(rows, vec![Row::Hidden(0, usize::MAX - 1), Row::Shown(plain(usize::MAX, "x"))]);
    let text = format!("  {}: top", usize::MAX);
    assert_eq!(parse(&text), vec![plain(usize::MAX, "top")]);
    let theme = Theme::blank();
    let marker = hidden_line(&theme, usize::MAX as u128 + 1);
    assert_eq!(marker.trim(), format!("⋮ {} frames hidden ⋮", usize::MAX as u128 + 1));
}
