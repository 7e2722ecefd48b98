//! Settings of the reports, and the report functions that use them.
use vstd::prelude::*;

use crate::filter::{
    apply_filters, builtin_only, filter_run, pipeline, run_result, sort_by_index, sort_frames, Filter,
};
use crate::frame::Frame;
use crate::indent::{indented_text, Indent};
use crate::location::Location;
use crate::parse::{parse, parse_text};
use crate::render::{
    empty_backtrace, empty_report, layout_spec, location_text, render_frames, report_text,
};
use crate::theme::{dark_theme, styled, Theme};
use crate::verbosity::{decode_spec, opt_bytes, Verbosity};
use crate::text::{decimal, decimal_text, pad_left, padded_left};

verus! {

/// Configuration influencing the appearance of reports.
pub struct Config {
    pub filters: Vec<Filter>,
    pub theme: Theme,
    pub error: Verbosity,
    pub panic: Verbosity,
}

/// The highest index among `s`, or 0.
pub open spec fn max_index(s: Seq<Frame>) -> nat
    decreases s.len(),
{
    if s.len() == 0 {
        0
    } else if s.last().index > max_index(s.drop_last()) {
        s.last().index as nat
    } else {
        max_index(s.drop_last())
    }
}

/// The frames left for display: filtered when `filtering`, as given otherwise.
pub open spec fn kept_frames(filters: Seq<Filter>, frames: Seq<Frame>, filtering: bool) -> Seq<
    Frame,
> {
    if filtering {
        pipeline(filters, frames)
    } else {
        frames
    }
}

/// The backtrace report of a configuration, when its filters are the
/// built-in ones or filtering is off.
pub open spec fn backtrace_report(
    theme: Theme,
    filters: Seq<Filter>,
    frames: Seq<Frame>,
    filtering: bool,
) -> Seq<char> {
    if frames.len() == 0 {
        empty_report()
    } else {
        report_text(
            theme,
            layout_spec(
                sort_by_index(kept_frames(filters, frames, filtering)),
                max_index(frames) as usize,
            ),
        )
    }
}

/// The verbosity that applies: the panic one while the thread is panicking.
pub open spec fn chosen_verbosity(panic: Verbosity, error: Verbosity, panicking: bool) -> Verbosity {
    if panicking {
        panic
    } else {
        error
    }
}

/// Whether the filters run at the given verbosity.
pub open spec fn filters_run(v: Verbosity) -> bool {
    v != Verbosity::Full
}

/// Whether `report` is a report of `frames` under the given filters: exact
/// when filtering is off or every filter is built-in; otherwise the report of
/// what some run of the filters left, each filter given what the one before it
/// left, sorted by index.
pub open spec fn is_backtrace_report(
    theme: Theme,
    filters: Seq<Filter>,
    frames: Seq<Frame>,
    filtering: bool,
    report: Seq<char>,
) -> bool {
    &&& (!filtering || builtin_only(filters)) ==> report == backtrace_report(
        theme,
        filters,
        frames,
        filtering,
    )
    &&& frames.len() == 0 ==> report == empty_report()
    &&& frames.len() > 0 && filtering ==> exists|ins: Seq<Seq<Frame>>, outs: Seq<Seq<Frame>>|
        #[trigger] filter_run(filters, frames, ins, outs) && report == report_text(
            theme,
            layout_spec(sort_by_index(run_result(frames, outs)), max_index(frames) as usize),
        )
}

fn highest_index(frames: &Vec<Frame>) -> (r: usize)
    ensures
        r == max_index(frames@),
{
    let mut m: usize = 0;
    let mut i: usize = 0;
    assert(frames@.take(0) =~= Seq::<Frame>::empty());
    while i < frames.len()
        invariant
            i <= frames@.len(),
            m == max_index(frames@.take(i as int)),
        decreases frames@.len() - i,
    {
        proof {
            let t = frames@.take(i + 1);
            assert(t.drop_last() =~= frames@.take(i as int));
            assert(t.last() == frames@[i as int]);
        }
        if frames[i].index > m {
            m = frames[i].index;
        }
        i = i + 1;
    }
    assert(frames@.take(frames@.len() as int) =~= frames@);
    m
}

pub open spec fn unwrap_or_minimal(v: Option<Verbosity>) -> Verbosity {
    match v {
        Some(v) => v,
        None => Verbosity::Minimal,
    }
}

impl Config {
    /// Creates a configuration with no filters and no backtraces.
    pub fn blank() -> (r: Config)
        ensures
            r.filters@.len() == 0,
            r.theme == dark_theme(),
            r.error == Verbosity::Minimal,
            r.panic == Verbosity::Minimal,
    {
        Config {
            filters: Vec::new(),
            theme: Theme::new(),
            error: Verbosity::Minimal,
            panic: Verbosity::Minimal,
        }
    }

    /// Creates a configuration with the built-in filters, and verbosities
    /// from the values of the library backtrace setting and of the general
    /// backtrace setting, where those are set.
    pub fn new(lib_backtrace: Option<&[u8]>, backtrace: Option<&[u8]>) -> (r: Config)
        ensures
            r.filters@.len() == 2,
            r.filters@[0] is Runtime,
            r.filters@[1] is Internal,
            r.theme == dark_theme(),
            r.error == unwrap_or_minimal(
                match opt_bytes(lib_backtrace) {
                    Some(b) => Some(decode_spec(b)),
                    None => match opt_bytes(backtrace) {
                        Some(b) => Some(decode_spec(b)),
                        None => None,
                    },
                },
            ),
            r.panic == unwrap_or_minimal(
                match opt_bytes(backtrace) {
                    Some(b) => Some(decode_spec(b)),
                    None => None,
                },
            ),
    {
        let error = match Verbosity::error(lib_backtrace, backtrace) {
            Some(v) => v,
            None => Verbosity::Minimal,
        };
        let panic = match Verbosity::panic(backtrace) {
            Some(v) => v,
            None => Verbosity::Minimal,
        };
        Config { filters: Frame::default_filters(), theme: Theme::new(), error, panic }
    }

    /// Sets the verbosity for panics.
    pub fn panic_verbosity(self, verbosity: Verbosity) -> (r: Config)
        ensures
            r.panic == verbosity,
            r.error == self.error,
            r.theme == self.theme,
            r.filters == self.filters,
    {
        Config { panic: verbosity, ..self }
    }

    /// Sets the verbosity for errors.
    pub fn error_verbosity(self, verbosity: Verbosity) -> (r: Config)
        ensures
            r.error == verbosity,
            r.panic == self.panic,
            r.theme == self.theme,
            r.filters == self.filters,
    {
        Config { error: verbosity, ..self }
    }

    /// Sets the verbosity for both errors and panics.
    pub fn verbosity(self, verbosity: Verbosity) -> (r: Config)
        ensures
            r.error == verbosity,
            r.panic == verbosity,
            r.theme == self.theme,
            r.filters == self.filters,
    {
        Config { error: verbosity, panic: verbosity, ..self }
    }

    /// Sets the theme.
    pub fn theme(self, theme: Theme) -> (r: Config)
        ensures
            r.theme == theme,
            r.error == self.error,
            r.panic == self.panic,
            r.filters == self.filters,
    {
        Config { theme, ..self }
    }

    /// Adds a filter after those already registered.
    pub fn filter(self, filter: Filter) -> (r: Config)
        ensures
            r.filters@ == self.filters@.push(filter),
            r.theme == self.theme,
            r.error == self.error,
            r.panic == self.panic,
    {
        let mut r = self;
        r.filters.push(filter);
        r
    }

    /// The verbosity that applies: the panic one while the thread is
    /// panicking, the error one otherwise.
    pub fn selected_verbosity(&self, panicking: bool) -> (r: Verbosity)
        ensures
            r == (if panicking {
                self.panic
            } else {
                self.error
            }),
    {
        if panicking {
            self.panic
        } else {
            self.error
        }
    }

    /// The report of a backtrace's frames. Unless the verbosity that applies
    /// is full, the registered filters run first, each followed by sorting by
    /// index; the frames are shown in index order with a marker for each run
    /// of frames hidden, up to the highest index among the frames given.
    pub fn render_backtrace(&self, frames: Vec<Frame>, panicking: bool) -> (r: String)
        ensures
            ({
                let filtering = filters_run(chosen_verbosity(self.panic, self.error, panicking));
                is_backtrace_report(self.theme, self.filters@, frames@, filtering, r@)
            }),
    {
        if frames.len() == 0 {
            return empty_backtrace();
        }
        let last = highest_index(&frames);
        let mut frames = frames;
        if self.selected_verbosity(panicking) != Verbosity::Full {
            apply_filters(&self.filters, &mut frames);
        }
        sort_frames(&mut frames);
        render_frames(&self.theme, frames, last)
    }

    /// The report of a backtrace given as text: its frames are parsed, then
    /// reported as [`Config::render_backtrace`] does.
    pub fn render_backtrace_text(&self, text: &str, panicking: bool) -> (r: String)
        ensures
            ({
                let filtering = filters_run(chosen_verbosity(self.panic, self.error, panicking));
                exists|frames: Vec<Frame>|
                    crate::frame::frames_view(frames@) == parse_text(text@)
                        && #[trigger] is_backtrace_report(
                        self.theme,
                        self.filters@,
                        frames@,
                        filtering,
                        r@,
                    )
            }),
    {
        let frames = parse(text);
        self.render_backtrace(frames, panicking)
    }
}

/// The numbered list of an error and its causes.
pub open spec fn chain_text(theme: Theme, msgs: Seq<Seq<char>>) -> Seq<char>
    decreases msgs.len(),
{
    if msgs.len() == 0 {
        Seq::empty()
    } else {
        chain_text(theme, msgs.drop_last()) + "\n"@ + pad_left(
            decimal_text((msgs.len() - 1) as nat),
            4,
            " "@,
        ) + ": "@ + styled(theme.error, msgs.last())
    }
}

/// The report of an error: its chain of messages, then the backtrace report,
/// if any, indented by two spaces.
pub open spec fn error_text(theme: Theme, msgs: Seq<Seq<char>>, backtrace: Option<Seq<char>>) -> Seq<
    char,
> {
    chain_text(theme, msgs) + match backtrace {
        Some(b) => indented_text("\n\n"@ + b, true, "  "@),
        None => Seq::empty(),
    }
}

/// The report of a panic: a header, its message, its location, and the
/// backtrace report indented by two spaces.
pub open spec fn panic_text(
    theme: Theme,
    payload: Option<Seq<char>>,
    location: Option<crate::location::LocationView>,
    backtrace: Seq<char>,
) -> Seq<char> {
    styled(theme.header, "The application panicked (crashed)."@) + "\n"@ + "Message:  "@ + styled(
        theme.message,
        match payload {
            Some(p) => p,
            None => "<non string panic payload>"@,
        },
    ) + "\n"@ + "Location: "@ + location_text(theme, location) + "\n"@ + indented_text(
        "\n"@ + backtrace,
        true,
        "  "@,
    ) + "\n"@
}

pub open spec fn opt_location_view(l: Option<&Location>) -> Option<crate::location::LocationView> {
    match l {
        Some(l) => Some(l@),
        None => None,
    }
}

pub open spec fn strings_view(v: Seq<String>) -> Seq<Seq<char>> {
    v.map_values(|s: String| s@)
}

impl Config {
    /// The report of an error whose message and causes' messages are
    /// `messages`, outermost first, with an already rendered backtrace report.
    pub fn error_message(&self, messages: &Vec<String>, backtrace: Option<&str>) -> (r: String)
        ensures
            r@ == error_text(
                self.theme,
                strings_view(messages@),
                match backtrace {
                    Some(b) => Some(b@),
                    None => None,
                },
            ),
    {
        let mut out = String::new();
        let mut i: usize = 0;
        assert(strings_view(messages@.take(0)) =~= Seq::<Seq<char>>::empty());
        while i < messages.len()
            invariant
                i <= messages@.len(),
                out@ == chain_text(self.theme, strings_view(messages@.take(i as int))),
            decreases messages@.len() - i,
        {
            out.append("\n");
            let n = decimal(i as u128);
            let number = padded_left(n.as_str(), 4, " ");
            out.append(number.as_str());
            out.append(": ");
            let msg = self.theme.error.style(messages[i].as_str());
            out.append(msg.as_str());
            proof {
                let t = strings_view(messages@.take(i + 1));
                assert(t.drop_last() =~= strings_view(messages@.take(i as int)));
                assert(t.last() == messages@[i as int]@);
                assert(t.len() == i + 1);
            }
            i = i + 1;
            assert(out@ =~= chain_text(self.theme, strings_view(messages@.take(i as int))));
        }
        assert(messages@.take(messages@.len() as int) =~= messages@);
        if let Some(b) = backtrace {
            let mut text = String::from_str("\n\n");
            text.append(b);
            let mut indent = Indent::double();
            indent.write_str(&mut out, text.as_str());
        } else {
            assert(out@ =~= out@ + Seq::<char>::empty());
        }
        out
    }

    /// The report of an error: its chain of messages, and the report of its
    /// backtrace text where it has one.
    pub fn error_report(&self, messages: &Vec<String>, backtrace: Option<&str>, panicking: bool) -> (r:
        String)
        ensures
            backtrace is None ==> r@ == error_text(self.theme, strings_view(messages@), None),
            ({
                let filtering = filters_run(chosen_verbosity(self.panic, self.error, panicking));
                backtrace is Some ==> exists|frames: Vec<Frame>, report: Seq<char>|
                    {
                        &&& crate::frame::frames_view(frames@) == parse_text(backtrace->0@)
                        &&& #[trigger] is_backtrace_report(
                            self.theme,
                            self.filters@,
                            frames@,
                            filtering,
                            report,
                        )
                        &&& r@ == error_text(self.theme, strings_view(messages@), Some(report))
                    }
            }),
    {
        match backtrace {
            Some(text) => {
                let report = self.render_backtrace_text(text, panicking);
                self.error_message(messages, Some(report.as_str()))
            },
            None => self.error_message(messages, None),
        }
    }

    /// The report of a panic with the given payload and location, with an
    /// already rendered backtrace report.
    pub fn panic_message(
        &self,
        payload: Option<&str>,
        location: Option<&Location>,
        backtrace: &str,
    ) -> (r: String)
        ensures
            r@ == panic_text(
                self.theme,
                match payload {
                    Some(p) => Some(p@),
                    None => None,
                },
                match location {
                    Some(l) => Some(l@),
                    None => None,
                },
                backtrace@,
            ),
    {
        let mut out = self.theme.header.style("The application panicked (crashed).");
        out.append("\n");
        out.append("Message:  ");
        let text = match payload {
            Some(p) => p,
            None => "<non string panic payload>",
        };
        let msg = self.theme.message.style(text);
        out.append(msg.as_str());
        out.append("\n");
        out.append("Location: ");
        let loc = crate::render::location_line_text(&self.theme, location);
        out.append(loc.as_str());
        out.append("\n");
        let mut bt = String::from_str("\n");
        bt.append(backtrace);
        let mut indent = Indent::double();
        indent.write_str(&mut out, bt.as_str());
        out.append("\n");
        assert(out@ =~= panic_text(
            self.theme,
            match payload {
                Some(p) => Some(p@),
                None => None,
            },
            match location {
                Some(l) => Some(l@),
                None => None,
            },
            backtrace@,
        ));
        out
    }

    /// The report of a panic, with the report of the backtrace text that was
    /// captured for it.
    pub fn panic_report(&self, payload: Option<&str>, location: Option<&Location>, backtrace: &str) -> (r:
        String)
        ensures
            exists|frames: Vec<Frame>, report: Seq<char>|
                {
                    &&& crate::frame::frames_view(frames@) == parse_text(backtrace@)
                    &&& #[trigger] is_backtrace_report(
                        self.theme,
                        self.filters@,
                        frames@,
                        filters_run(self.panic),
                        report,
                    )
                    &&& r@ == panic_text(
                        self.theme,
                        crate::frame::opt_str_view(payload),
                        opt_location_view(location),
                        report,
                    )
                },
    {
        let report = self.render_backtrace_text(backtrace, true);
        let r = self.panic_message(payload, location, report.as_str());
        assert(r@ == panic_text(
            self.theme,
            crate::frame::opt_str_view(payload),
            opt_location_view(location),
            report@,
        ));
        r
    }
}

} // verus!
