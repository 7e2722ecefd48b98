//! Heuristics that tell which frames of a backtrace are noise.
use vstd::prelude::*;

use crate::frame::{Frame, FrameView};
use crate::text::{contains, contains_run, starts_with, to_chars};

verus! {

/// Symbol prefixes of code that is not part of the user's own crate.
pub open spec fn dependency_symbol_prefixes() -> Seq<Seq<char>> {
    seq![
        "std::"@,
        "core::"@,
        "backtrace::backtrace::"@,
        "_rust_begin_unwind"@,
        "color_traceback::"@,
        "__rust_"@,
        "___rust_"@,
        "__pthread"@,
        "_main"@,
        "main"@,
        "__scrt_common_main_seh"@,
        "BaseThreadInitThunk"@,
        "_start"@,
        "__libc_start_main"@,
        "start_thread"@,
    ]
}

/// Symbol prefixes of the machinery that runs once a panic has started.
pub open spec fn post_panic_symbol_prefixes() -> Seq<Seq<char>> {
    seq![
        "_rust_begin_unwind"@,
        "rust_begin_unwind"@,
        "core::result::unwrap_failed"@,
        "core::option::expect_none_failed"@,
        "core::panicking::panic_fmt"@,
        "color_backtrace::create_panic_handler"@,
        "std::panicking::begin_panic"@,
        "begin_panic_fmt"@,
        "failure::backtrace::Backtrace::new"@,
        "backtrace::capture"@,
        "failure::error_message::err_msg"@,
        "<failure::error::Error as core::convert::From<F>>::from"@,
    ]
}

/// Symbol prefixes of the language runtime's start-up code.
pub open spec fn runtime_init_symbol_prefixes() -> Seq<Seq<char>> {
    seq![
        "std::rt::lang_start::"@,
        "test::run_test::run_test_inner::"@,
        "std::sys_common::backtrace::__rust_begin_short_backtrace"@,
    ]
}

/// Symbol prefixes of the error-reporting libraries themselves.
pub open spec fn internal_symbol_prefixes() -> Seq<Seq<char>> {
    seq!["anyhow::"@, "eyre::"@, "terminator::"@]
}

/// File prefixes of source that belongs to the toolchain.
pub open spec fn dependency_file_prefixes() -> Seq<Seq<char>> {
    seq!["/rustc/"@, "src/libstd/"@, "src/libpanic_unwind/"@, "src/libtest/"@]
}

/// Where the package manager unpacks the sources of fetched packages.
pub open spec fn registry_marker() -> Seq<char> {
    "/.cargo/registry/src/"@
}

/// Whether some entry of `table` is a prefix of `s`.
pub open spec fn prefixed_by_any(s: Seq<char>, table: Seq<Seq<char>>) -> bool {
    exists|i: int| 0 <= i < table.len() && #[trigger] table[i].is_prefix_of(s)
}

/// Code of a dependency rather than of the user's crate; used for styling.
pub open spec fn dependency_code(f: FrameView) -> bool {
    ||| (f.name is Some && prefixed_by_any(f.name->0, dependency_symbol_prefixes()))
    ||| (f.location is Some && (prefixed_by_any(f.location->0.file, dependency_file_prefixes())
        || contains_run(f.location->0.file, registry_marker())))
}

/// A frame of the machinery that runs after a panic has begun.
pub open spec fn post_panic_code(f: FrameView) -> bool {
    f.name is Some && prefixed_by_any(f.name->0, post_panic_symbol_prefixes())
}

/// A frame of the runtime's start-up code: its name starts with a start-up
/// prefix, or it is the test harness's closure in the harness's own file.
pub open spec fn runtime_init_code(f: FrameView) -> bool {
    f.name is Some && (prefixed_by_any(f.name->0, runtime_init_symbol_prefixes()) || (f.name->0
        == "{{closure}}"@ && f.location is Some && f.location->0.file == "src/libtest/lib.rs"@))
}

/// A frame of the error-reporting libraries themselves.
pub open spec fn internal_machinery(f: FrameView) -> bool {
    f.name is Some && prefixed_by_any(f.name->0, internal_symbol_prefixes())
}

fn table(entries: Vec<&'static str>, spec_table: Ghost<Seq<Seq<char>>>) -> (r: Vec<Vec<char>>)
    requires
        entries@.len() == spec_table@.len(),
        forall|i: int| 0 <= i < entries@.len() ==> #[trigger] entries@[i]@ == spec_table@[i],
    ensures
        r@.len() == spec_table@.len(),
        forall|i: int| 0 <= i < r@.len() ==> #[trigger] r@[i]@ == spec_table@[i],
{
    let mut r: Vec<Vec<char>> = Vec::new();
    let mut i: usize = 0;
    while i < entries.len()
        invariant
            i <= entries@.len(),
            entries@.len() == spec_table@.len(),
            forall|k: int| 0 <= k < entries@.len() ==> #[trigger] entries@[k]@ == spec_table@[k],
            r@.len() == i,
            forall|k: int| 0 <= k < i ==> #[trigger] r@[k]@ == spec_table@[k],
        decreases entries@.len() - i,
    {
        r.push(to_chars(entries[i]));
        i = i + 1;
    }
    r
}

fn starts_with_any(s: &Vec<char>, table: &Vec<Vec<char>>, spec_table: Ghost<Seq<Seq<char>>>) -> (r:
    bool)
    requires
        table@.len() == spec_table@.len(),
        forall|i: int| 0 <= i < table@.len() ==> #[trigger] table@[i]@ == spec_table@[i],
    ensures
        r == prefixed_by_any(s@, spec_table@),
{
    let mut i: usize = 0;
    while i < table.len()
        invariant
            i <= table@.len(),
            table@.len() == spec_table@.len(),
            forall|k: int| 0 <= k < table@.len() ==> #[trigger] table@[k]@ == spec_table@[k],
            forall|k: int| 0 <= k < i ==> !(#[trigger] spec_table@[k]).is_prefix_of(s@),
        decreases table@.len() - i,
    {
        if starts_with(s, &table[i]) {
            return true;
        }
        i = i + 1;
    }
    false
}

fn name_prefixed_by(f: &Frame, entries: Vec<&'static str>, spec_table: Ghost<Seq<Seq<char>>>) -> (r:
    bool)
    requires
        entries@.len() == spec_table@.len(),
        forall|i: int| 0 <= i < entries@.len() ==> #[trigger] entries@[i]@ == spec_table@[i],
    ensures
        r == (f@.name is Some && prefixed_by_any(f@.name->0, spec_table@)),
{
    match &f.name {
        Some(n) => {
            let t = table(entries, spec_table);
            starts_with_any(&to_chars(n.as_str()), &t, spec_table)
        },
        None => false,
    }
}

fn dependency_symbols() -> (r: Vec<&'static str>)
    ensures
        r@.len() == dependency_symbol_prefixes().len(),
        forall|i: int| 0 <= i < r@.len() ==> #[trigger] r@[i]@ == dependency_symbol_prefixes()[i],
{
    let r = vec![
        "std::",
        "core::",
        "backtrace::backtrace::",
        "_rust_begin_unwind",
        "color_traceback::",
        "__rust_",
        "___rust_",
        "__pthread",
        "_main",
        "main",
        "__scrt_common_main_seh",
        "BaseThreadInitThunk",
        "_start",
        "__libc_start_main",
        "start_thread",
    ];
    assert(r@.len() == 15);
    r
}

fn post_panic_symbols() -> (r: Vec<&'static str>)
    ensures
        r@.len() == post_panic_symbol_prefixes().len(),
        forall|i: int| 0 <= i < r@.len() ==> #[trigger] r@[i]@ == post_panic_symbol_prefixes()[i],
{
    vec![
        "_rust_begin_unwind",
        "rust_begin_unwind",
        "core::result::unwrap_failed",
        "core::option::expect_none_failed",
        "core::panicking::panic_fmt",
        "color_backtrace::create_panic_handler",
        "std::panicking::begin_panic",
        "begin_panic_fmt",
        "failure::backtrace::Backtrace::new",
        "backtrace::capture",
        "failure::error_message::err_msg",
        "<failure::error::Error as core::convert::From<F>>::from",
    ]
}

fn runtime_init_symbols() -> (r: Vec<&'static str>)
    ensures
        r@.len() == runtime_init_symbol_prefixes().len(),
        forall|i: int| 0 <= i < r@.len() ==> #[trigger] r@[i]@ == runtime_init_symbol_prefixes()[i],
{
    vec![
        "std::rt::lang_start::",
        "test::run_test::run_test_inner::",
        "std::sys_common::backtrace::__rust_begin_short_backtrace",
    ]
}

fn internal_symbols() -> (r: Vec<&'static str>)
    ensures
        r@.len() == internal_symbol_prefixes().len(),
        forall|i: int| 0 <= i < r@.len() ==> #[trigger] r@[i]@ == internal_symbol_prefixes()[i],
{
    vec!["anyhow::", "eyre::", "terminator::"]
}

fn dependency_files() -> (r: Vec<&'static str>)
    ensures
        r@.len() == dependency_file_prefixes().len(),
        forall|i: int| 0 <= i < r@.len() ==> #[trigger] r@[i]@ == dependency_file_prefixes()[i],
{
    vec!["/rustc/", "src/libstd/", "src/libpanic_unwind/", "src/libtest/"]
}

impl Frame {
    /// Heuristically determines whether the frame belongs to a dependency
    /// rather than to the user's own crate.
    pub fn is_dependency_code(&self) -> (r: bool)
        ensures
            r == dependency_code(self@),
    {
        if name_prefixed_by(self, dependency_symbols(), Ghost(dependency_symbol_prefixes())) {
            return true;
        }
        match &self.location {
            Some(l) => {
                let file = to_chars(l.file.as_str());
                let t = table(dependency_files(), Ghost(dependency_file_prefixes()));
                starts_with_any(&file, &t, Ghost(dependency_file_prefixes())) || contains(
                    &file,
                    &to_chars("/.cargo/registry/src/"),
                )
            },
            None => false,
        }
    }

    /// Heuristically determines whether the frame is part of the machinery
    /// that runs once a panic is in progress.
    pub fn is_post_panic_code(&self) -> (r: bool)
        ensures
            r == post_panic_code(self@),
    {
        name_prefixed_by(self, post_panic_symbols(), Ghost(post_panic_symbol_prefixes()))
    }

    /// Heuristically determines whether the frame is part of the language
    /// runtime's start-up code.
    pub fn is_runtime_init_code(&self) -> (r: bool)
        ensures
            r == runtime_init_code(self@),
    {
        match &self.name {
            Some(n) => {
                if name_prefixed_by(
                    self,
                    runtime_init_symbols(),
                    Ghost(runtime_init_symbol_prefixes()),
                ) {
                    return true;
                }
                // The test harness's own closure, as it shows on Linux.
                let name = to_chars(n.as_str());
                if !range_is(&name, "{{closure}}") {
                    return false;
                }
                match &self.location {
                    Some(l) => range_is(&to_chars(l.file.as_str()), "src/libtest/lib.rs"),
                    None => false,
                }
            },
            None => false,
        }
    }

    /// Determines whether the frame belongs to the error-reporting
    /// libraries themselves.
    pub fn is_internal_machinery(&self) -> (r: bool)
        ensures
            r == internal_machinery(self@),
    {
        name_prefixed_by(self, internal_symbols(), Ghost(internal_symbol_prefixes()))
    }
}

fn range_is(t: &Vec<char>, s: &str) -> (r: bool)
    ensures
        r == (t@ == s@),
{
    let p = to_chars(s);
    let r = crate::text::range_equals(t, 0, t.len(), &p);
    assert(t@.subrange(0, t@.len() as int) =~= t@);
    r
}

} // verus!
