//! Recovers frames from a backtrace printed as text:
//!
//! ```text
//!    6: aoc::main
//!              at ./src/main.rs:46:18
//! ```
use vstd::prelude::*;

use crate::frame::{frames_view, Frame, FrameView, UNKNOWN};
use crate::location::{Location, LocationView};
use crate::text::{
    all_digits, digits_value, drop_trailing_space, find_last_colon, find_separator, is_digit,
    is_digit_char, last_colon, parse_decimal, range_equals, sep_from, skip_space, substring,
    to_chars, trim_end, trim_start,
};

verus! {

/// Position of the first `'\n'` in `t` at or after `i`, or the length of `t`.
pub open spec fn newline_from(t: Seq<char>, i: int) -> int
    decreases t.len() - i,
{
    if i < 0 || i >= t.len() {
        t.len() as int
    } else if t[i] == '\n' {
        i
    } else {
        newline_from(t, i + 1)
    }
}

/// A line without the `'\r'` of a `"\r\n"` ending.
pub open spec fn strip_cr(l: Seq<char>) -> Seq<char> {
    if l.len() > 0 && l.last() == '\r' {
        l.drop_last()
    } else {
        l
    }
}

/// The lines of `t` from position `p` on, as `str::lines` splits them: at
/// `'\n'` or `"\r\n"`, with no empty line after a final line ending.
pub open spec fn lines_from(t: Seq<char>, p: int) -> Seq<Seq<char>>
    decreases t.len() - p,
{
    if p < 0 || p >= t.len() {
        Seq::empty()
    } else {
        let e = newline_from(t, p);
        if p <= e < t.len() {
            seq![strip_cr(t.subrange(p, e))] + lines_from(t, e + 1)
        } else {
            seq![t.subrange(p, t.len() as int)]
        }
    }
}

pub open spec fn lines_of(t: Seq<char>) -> Seq<Seq<char>> {
    lines_from(t, 0)
}

/// A symbol line: optional whitespace, a decimal index that fits a `usize`,
/// `": "`, and the symbol name up to the end of the line, without trailing
/// whitespace; the name may be empty. Gives the index and the name, which is
/// `None` for the `"<unknown>"` placeholder.
pub open spec fn symbol_line(l: Seq<char>) -> Option<(nat, Option<Seq<char>>)> {
    let t = trim_start(l);
    let p = sep_from(t, 0);
    if p >= 0 && all_digits(t.take(p)) && digits_value(t.take(p)) <= usize::MAX {
        let name = trim_end(t.skip(p + 2));
        Some((digits_value(t.take(p)), if name == UNKNOWN@ { None } else { Some(name) }))
    } else {
        None
    }
}

/// A location line: optional whitespace, `"at "`, a non-empty file name, and
/// `":line:column"` with both numbers in decimal and the line fitting a `u32`.
/// The column is dropped.
pub open spec fn location_line(l: Seq<char>) -> Option<LocationView> {
    let t = trim_start(l);
    if t.len() >= 3 && t[0] == 'a' && t[1] == 't' && t[2] == ' ' {
        let r = t.skip(3);
        let c2 = last_colon(r);
        if c2 >= 0 {
            let c1 = last_colon(r.take(c2));
            if c1 > 0 && all_digits(r.subrange(c1 + 1, c2)) && digits_value(
                r.subrange(c1 + 1, c2),
            ) <= u32::MAX && all_digits(r.skip(c2 + 1)) {
                Some(
                    LocationView { file: r.take(c1), line: digits_value(r.subrange(c1 + 1, c2)) as u32 },
                )
            } else {
                None
            }
        } else {
            None
        }
    } else {
        None
    }
}

/// The frame that the first lines give, and how many lines it takes: a
/// symbol line, and the line after it when that is a location line.
pub open spec fn frame_at(lines: Seq<Seq<char>>) -> Option<(FrameView, nat)> {
    if lines.len() == 0 {
        None
    } else {
        match symbol_line(lines[0]) {
            None => None,
            Some((index, name)) => if lines.len() > 1 && location_line(lines[1]) is Some {
                Some((FrameView { index, name, location: location_line(lines[1]) }, 2))
            } else {
                Some((FrameView { index, name, location: None }, 1))
            },
        }
    }
}

/// The frames of `lines`, in order. Parsing stops at the first line that is
/// not a symbol line where one is due.
pub open spec fn parse_lines(lines: Seq<Seq<char>>) -> Seq<FrameView>
    decreases lines.len(),
{
    match frame_at(lines) {
        None => Seq::empty(),
        Some((f, k)) => if 1 <= k <= lines.len() {
            seq![f] + parse_lines(lines.skip(k as int))
        } else {
            Seq::empty()
        },
    }
}

/// The frames of a backtrace text.
pub open spec fn parse_text(t: Seq<char>) -> Seq<FrameView> {
    parse_lines(lines_of(t))
}

/// The lines of `t` when the text starts at `p`: the line's content ends at
/// `hi` and the next line starts at `next`.
fn line_at(t: &Vec<char>, pos: usize) -> (r: (usize, usize))
    requires
        pos < t@.len(),
    ensures
        pos <= r.0 <= t@.len(),
        pos < r.1 <= t@.len(),
        lines_from(t@, pos as int) == seq![t@.subrange(pos as int, r.0 as int)] + lines_from(
            t@,
            r.1 as int,
        ),
{
    let mut e = pos;
    while e < t.len() && t[e] != '\n'
        invariant
            pos <= e <= t@.len(),
            newline_from(t@, pos as int) == newline_from(t@, e as int),
        decreases t@.len() - e,
    {
        e = e + 1;
    }
    if e == t.len() {
        assert(lines_from(t@, e as int) == Seq::<Seq<char>>::empty());
        assert(seq![t@.subrange(pos as int, e as int)] + Seq::<Seq<char>>::empty() =~= seq![
            t@.subrange(pos as int, e as int),
        ]);
        (e, e)
    } else {
        let hi = if e > pos && t[e - 1] == '\r' {
            e - 1
        } else {
            e
        };
        assert(t@.subrange(pos as int, hi as int) == strip_cr(t@.subrange(pos as int, e as int)))
            by {
            if e > pos && t@[e - 1] == '\r' {
                assert(t@.subrange(pos as int, e as int).drop_last() =~= t@.subrange(
                    pos as int,
                    e - 1,
                ));
            }
        }
        (hi, e + 1)
    }
}

/// Index and name range of the symbol line `lo..hi`.
fn scan_symbol_line(t: &Vec<char>, lo: usize, hi: usize) -> (r: Option<(usize, usize, usize)>)
    requires
        lo <= hi <= t@.len(),
    ensures
        match r {
            None => symbol_line(t@.subrange(lo as int, hi as int)) is None,
            Some((index, nlo, nhi)) => {
                &&& lo <= nlo <= nhi <= hi
                &&& symbol_line(t@.subrange(lo as int, hi as int)) is Some
                &&& (symbol_line(t@.subrange(lo as int, hi as int))->0).0 == index as nat
                &&& trim_end(
                    trim_start(t@.subrange(lo as int, hi as int)).skip(
                        sep_from(trim_start(t@.subrange(lo as int, hi as int)), 0) + 2,
                    ),
                ) == t@.subrange(nlo as int, nhi as int)
            },
        },
{
    let ghost l = t@.subrange(lo as int, hi as int);
    let a = skip_space(t, lo, hi);
    let ghost ts = t@.subrange(a as int, hi as int);
    assert(ts == trim_start(l));
    match find_separator(t, a, hi) {
        None => {
            assert(sep_from(ts, 0) < 0);
            None
        },
        Some(p) => {
            assert(ts.take(p - a) =~= t@.subrange(a as int, p as int));
            assert(ts.skip(p - a + 2) =~= t@.subrange(p + 2, hi as int));
            match parse_decimal(t, a, p, usize::MAX as u64) {
                None => {
                    assert(!(all_digits(ts.take(p - a)) && digits_value(ts.take(p - a))
                        <= usize::MAX));
                    None
                },
                Some(index) => {
                    let nhi = drop_trailing_space(t, p + 2, hi);
                    Some((index as usize, p + 2, nhi))
                },
            }
        },
    }
}

/// Whether `lo..hi` is a non-empty run of decimal digits.
fn digits_only(t: &Vec<char>, lo: usize, hi: usize) -> (r: bool)
    requires
        lo <= hi <= t@.len(),
    ensures
        r == all_digits(t@.subrange(lo as int, hi as int)),
{
    if lo == hi {
        return false;
    }
    let mut i = lo;
    while i < hi
        invariant
            lo <= i <= hi <= t@.len(),
            forall|k: int| lo <= k < i ==> is_digit(#[trigger] t@[k]),
        decreases hi - i,
    {
        if !is_digit_char(t[i]) {
            assert(t@.subrange(lo as int, hi as int)[i - lo] == t@[i as int]);
            return false;
        }
        i = i + 1;
    }
    assert forall|k: int| 0 <= k < hi - lo implies is_digit(
        #[trigger] t@.subrange(lo as int, hi as int)[k],
    ) by {
        assert(t@.subrange(lo as int, hi as int)[k] == t@[lo + k]);
    }
    true
}

/// File range and line number of the location line `lo..hi`.
fn scan_location_line(t: &Vec<char>, lo: usize, hi: usize) -> (r: Option<(usize, usize, u32)>)
    requires
        lo <= hi <= t@.len(),
    ensures
        match r {
            None => location_line(t@.subrange(lo as int, hi as int)) is None,
            Some((flo, fhi, line)) => {
                &&& lo <= flo <= fhi <= hi
                &&& location_line(t@.subrange(lo as int, hi as int)) == Some(
                    LocationView { file: t@.subrange(flo as int, fhi as int), line },
                )
            },
        },
{
    let ghost l = t@.subrange(lo as int, hi as int);
    let a = skip_space(t, lo, hi);
    let ghost ts = t@.subrange(a as int, hi as int);
    assert(ts == trim_start(l));
    if hi - a < 3 || t[a] != 'a' || t[a + 1] != 't' || t[a + 2] != ' ' {
        assert(hi - a >= 3 ==> ts[0] == t@[a as int] && ts[1] == t@[a + 1] && ts[2] == t@[a
            + 2]);
        return None;
    }
    let s = a + 3;
    let ghost r = ts.skip(3);
    assert(r =~= t@.subrange(s as int, hi as int));
    let c2 = match find_last_colon(t, s, hi) {
        None => {
            return None;
        },
        Some(c) => c,
    };
    assert(r.take(c2 - s) =~= t@.subrange(s as int, c2 as int));
    assert(last_colon(r) == c2 - s);
    let c1 = match find_last_colon(t, s, c2) {
        None => {
            assert(last_colon(r.take(c2 - s)) < 0);
            assert(location_line(l) is None);
            return None;
        },
        Some(c) => c,
    };
    assert(r.subrange(c1 - s + 1, c2 - s) =~= t@.subrange(c1 + 1, c2 as int));
    assert(r.skip(c2 - s + 1) =~= t@.subrange(c2 + 1, hi as int));
    assert(r.take(c1 - s) =~= t@.subrange(s as int, c1 as int));
    assert(last_colon(r.take(c2 - s)) == c1 - s);
    if c1 == s {
        assert(location_line(l) is None);
        return None;
    }
    let line = match parse_decimal(t, c1 + 1, c2, u32::MAX as u64) {
        None => {
            return None;
        },
        Some(v) => v,
    };
    if !digits_only(t, c2 + 1, hi) {
        return None;
    }
    Some((s, c1, line as u32))
}

/// A single-pass producer of the frames of a backtrace text. It can be
/// stopped at any time; once it has ended it stays ended.
pub struct BacktraceParser<'a> {
    source: &'a str,
    text: Vec<char>,
    pos: usize,
}

impl<'a> BacktraceParser<'a> {
    pub closed spec fn wf(&self) -> bool {
        self.text@ == self.source@ && self.pos <= self.text@.len()
    }

    /// The lines not consumed yet.
    pub closed spec fn remaining(&self) -> Seq<Seq<char>> {
        lines_from(self.text@, self.pos as int)
    }

    /// A parser over the whole of `source`.
    pub fn new(source: &'a str) -> (r: Self)
        ensures
            r.wf(),
            r.remaining() == lines_of(source@),
    {
        BacktraceParser { source, text: to_chars(source), pos: 0 }
    }

    /// The next frame: a symbol line, with the line after it when that is a
    /// location line. Where a symbol line is due and the line is not one,
    /// parsing ends for good.
    pub fn next(&mut self) -> (r: Option<Frame>)
        requires
            old(self).wf(),
        ensures
            final(self).wf(),
            match frame_at(old(self).remaining()) {
                None => r is None && final(self).remaining().len() == 0,
                Some((f, k)) => {
                    &&& r is Some
                    &&& r->0@ == f
                    &&& 1 <= k <= old(self).remaining().len()
                    &&& final(self).remaining() == old(self).remaining().skip(k as int)
                },
            },
            parse_lines(old(self).remaining()) == match r {
                None => Seq::<FrameView>::empty(),
                Some(f) => seq![f@] + parse_lines(final(self).remaining()),
            },
    {
        let len = self.text.len();
        if self.pos >= len {
            return None;
        }
        let ghost lines = self.remaining();
        let (hi, next) = line_at(&self.text, self.pos);
        assert(lines[0] == self.text@.subrange(self.pos as int, hi as int));
        let (index, nlo, nhi) = match scan_symbol_line(&self.text, self.pos, hi) {
            None => {
                self.pos = len;
                return None;
            },
            Some(s) => s,
        };
        let unknown = to_chars(UNKNOWN);
        let name = if range_equals(&self.text, nlo, nhi, &unknown) {
            None
        } else {
            Some(substring(self.source, nlo, nhi))
        };
        assert(lines.skip(1) =~= lines_from(self.text@, next as int));
        if next < len {
            let (hi2, next2) = line_at(&self.text, next);
            assert(lines[1] == self.text@.subrange(next as int, hi2 as int));
            if let Some((flo, fhi, line)) = scan_location_line(&self.text, next, hi2) {
                let file = substring(self.source, flo, fhi);
                self.pos = next2;
                assert(lines.skip(2) =~= lines_from(self.text@, next2 as int));
                return Some(Frame { index, name, location: Some(Location { file, line }) });
            }
        } else {
            assert(lines_from(self.text@, next as int).len() == 0);
        }
        self.pos = next;
        Some(Frame { index, name, location: None })
    }
}

/// All frames of a backtrace text, in order.
pub fn parse(source: &str) -> (r: Vec<Frame>)
    ensures
        frames_view(r@) == parse_text(source@),
{
    let mut parser = BacktraceParser::new(source);
    let mut out: Vec<Frame> = Vec::new();
    loop
        invariant
            parser.wf(),
            frames_view(out@) + parse_lines(parser.remaining()) == parse_text(source@),
        decreases parser.remaining().len(),
    {
        let ghost before = parser.remaining();
        match parser.next() {
            None => {
                assert(frames_view(out@) + Seq::<FrameView>::empty() =~= frames_view(out@));
                return out;
            },
            Some(f) => {
                let ghost fv = f@;
                let ghost old_out = out@;
                out.push(f);
                proof {
                    assert(frames_view(out@) =~= frames_view(old_out).push(fv));
                    assert(parse_lines(before) == seq![fv] + parse_lines(parser.remaining()));
                    assert(frames_view(old_out).push(fv) + parse_lines(parser.remaining())
                        =~= frames_view(old_out) + (seq![fv] + parse_lines(parser.remaining())));
                }
            },
        }
    }
}

/// Every line is a symbol line, or a location line right after a symbol line.
pub open spec fn well_formed(lines: Seq<Seq<char>>) -> bool {
    forall|i: int|
        0 <= i < lines.len() ==> symbol_line(#[trigger] lines[i]) is Some || (i > 0
            && location_line(lines[i]) is Some && symbol_line(lines[i - 1]) is Some)
}

/// The symbol lines among `lines`, in order.
pub open spec fn symbol_lines(lines: Seq<Seq<char>>) -> Seq<Seq<char>> {
    lines.filter(|l: Seq<char>| symbol_line(l) is Some)
}

proof fn lemma_location_not_symbol(l: Seq<char>)
    requires
        location_line(l) is Some,
    ensures
        symbol_line(l) is None,
{
    let t = trim_start(l);
    crate::text::lemma_sep_from(t, 0);
    let p = sep_from(t, 0);
    if p >= 0 && all_digits(t.take(p)) {
        assert(p > 0);
        assert(t.take(p)[0] == t[0]);
        assert(is_digit(t.take(p)[0]));
    }
}

proof fn lemma_filter_cons(a: Seq<char>, rest: Seq<Seq<char>>, pred: spec_fn(Seq<char>) -> bool)
    ensures
        (seq![a] + rest).filter(pred) == (if pred(a) {
            seq![a]
        } else {
            Seq::<Seq<char>>::empty()
        }) + rest.filter(pred),
{
    broadcast use vstd::seq_lib::group_filter_ensures;

    Seq::filter_distributes_over_add(seq![a], rest, pred);
    reveal(Seq::filter);
    assert(seq![a].drop_last() =~= Seq::<Seq<char>>::empty());
    assert(Seq::<Seq<char>>::empty().filter(pred) =~= Seq::<Seq<char>>::empty());
    assert(seq![a].filter(pred) =~= (if pred(a) {
        seq![a]
    } else {
        Seq::<Seq<char>>::empty()
    }));
}

proof fn lemma_parse_counts(lines: Seq<Seq<char>>)
    requires
        well_formed(lines),
    ensures
        parse_lines(lines).len() == symbol_lines(lines).len(),
        forall|k: int|
            0 <= k < parse_lines(lines).len() ==> (#[trigger] parse_lines(lines)[k]).index == (
            symbol_line(symbol_lines(lines)[k])->0).0,
    decreases lines.len(),
{
    let pred = |l: Seq<char>| symbol_line(l) is Some;
    if lines.len() == 0 {
        reveal(Seq::filter);
        return;
    }
    assert(symbol_line(lines[0]) is Some);
    let k: int = if lines.len() > 1 && location_line(lines[1]) is Some {
        2
    } else {
        1
    };
    let rest = lines.skip(k);
    if k == 2 {
        lemma_location_not_symbol(lines[1]);
    }
    assert forall|i: int| 0 <= i < rest.len() implies symbol_line(#[trigger] rest[i]) is Some || (i
        > 0 && location_line(rest[i]) is Some && symbol_line(rest[i - 1]) is Some) by {
        assert(rest[i] == lines[i + k]);
        if i > 0 {
            assert(rest[i - 1] == lines[i + k - 1]);
        }
    }
    lemma_parse_counts(rest);
    assert(parse_lines(lines) == seq![(frame_at(lines)->0).0] + parse_lines(rest));
    if k == 2 {
        assert(lines =~= seq![lines[0]] + (seq![lines[1]] + rest));
        lemma_filter_cons(lines[1], rest, pred);
        lemma_filter_cons(lines[0], seq![lines[1]] + rest, pred);
        assert((seq![lines[1]] + rest).filter(pred) =~= rest.filter(pred));
    } else {
        assert(lines =~= seq![lines[0]] + rest);
        lemma_filter_cons(lines[0], rest, pred);
    }
    assert(symbol_lines(lines) =~= seq![lines[0]] + symbol_lines(rest));
    assert forall|j: int| 0 <= j < parse_lines(lines).len() implies (#[trigger] parse_lines(
        lines,
    )[j]).index == (symbol_line(symbol_lines(lines)[j])->0).0 by {
        if j > 0 {
            assert(parse_lines(lines)[j] == parse_lines(rest)[j - 1]);
            assert(symbol_lines(lines)[j] == symbol_lines(rest)[j - 1]);
        }
    }
}

/// A parser whose remaining lines are all symbol lines, each followed by at
/// most one location line, has one frame per symbol line left to give, in
/// order, each with the index that its line gives; `next` gives them one at
/// a time and then `None`.
pub proof fn parser_yields_symbol_lines(p: BacktraceParser)
    requires
        p.wf(),
        well_formed(p.remaining()),
    ensures
        parse_lines(p.remaining()).len() == symbol_lines(p.remaining()).len(),
        forall|k: int|
            0 <= k < parse_lines(p.remaining()).len() ==> (#[trigger] parse_lines(
                p.remaining(),
            )[k]).index == (symbol_line(symbol_lines(p.remaining())[k])->0).0,
{
    lemma_parse_counts(p.remaining());
}

/// Parsing a text whose lines are all symbol lines, each followed by at most
/// one location line, yields one frame per symbol line, in order, with the
/// index that the line gives.
pub proof fn parse_counts_symbol_lines(t: Seq<char>)
    requires
        well_formed(lines_of(t)),
    ensures
        parse_text(t).len() == symbol_lines(lines_of(t)).len(),
        forall|k: int|
            0 <= k < parse_text(t).len() ==> (#[trigger] parse_text(t)[k]).index == (symbol_line(
                symbol_lines(lines_of(t))[k],
            )->0).0,
{
    lemma_parse_counts(lines_of(t));
}

} // verus!
