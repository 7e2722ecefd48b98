//! Lays out a filtered backtrace with markers for the frames that were
//! hidden, and renders it as text.
use vstd::prelude::*;

use crate::classify::dependency_code;
use crate::frame::{symbol_parts, Frame, UNKNOWN};
use crate::location::LocationView;
use crate::text::{center, centered, decimal, decimal_text, pad_left, padded_left};
use crate::theme::{styled, Theme};

verus! {

broadcast use vstd::std_specs::vec::axiom_spec_into_iter;

/// Width of banners and of hidden-frame markers.
pub const WIDTH: usize = 80;

/// One row of a rendered backtrace.
#[derive(Debug, PartialEq, Eq)]
pub enum Row {
    /// The frames with indices `first..=last` were hidden.
    Hidden(usize, usize),
    /// A frame that is shown.
    Shown(Frame),
}

/// The rows for `s`, when the index expected next is `next`: a frame whose
/// index is beyond `next` is preceded by a marker for the indices skipped.
pub open spec fn layout_from(s: Seq<Frame>, next: int) -> Seq<Row>
    decreases s.len(),
{
    if s.len() == 0 {
        Seq::empty()
    } else {
        let f = s[0];
        (if f.index > next {
            seq![Row::Hidden(next as usize, (f.index - 1) as usize), Row::Shown(f)]
        } else {
            seq![Row::Shown(f)]
        }) + layout_from(s.drop_first(), f.index + 1)
    }
}

/// The index expected after the rows for `s`.
pub open spec fn next_after(s: Seq<Frame>, next: int) -> int
    decreases s.len(),
{
    if s.len() == 0 {
        next
    } else {
        next_after(s.drop_first(), s[0].index + 1)
    }
}

/// The rows for frames `s` of a backtrace whose highest index is `last`:
/// a final marker counts the frames hidden after the last one shown.
pub open spec fn layout_spec(s: Seq<Frame>, last: usize) -> Seq<Row> {
    let n = next_after(s, 0);
    layout_from(s, 0) + if last >= n {
        seq![Row::Hidden(n as usize, last)]
    } else {
        Seq::empty()
    }
}

/// Rows of the frames in order, with markers for the gaps between their
/// indices and after the last of them, up to `last`.
pub fn layout(frames: Vec<Frame>, last: usize) -> (r: Vec<Row>)
    ensures
        r@ == layout_spec(frames@, last),
{
    let ghost s = frames@;
    let mut rows: Vec<Row> = Vec::new();
    let mut next: u128 = 0;
    assert(s.skip(0) =~= s);
    for f in it: frames.into_iter()
        invariant
            it.seq() == s,
            next <= usize::MAX as u128 + 1,
            layout_from(s, 0) == rows@ + layout_from(s.skip(it.index() as int), next as int),
            next_after(s, 0) == next_after(s.skip(it.index() as int), next as int),
    {
        let ghost k = it.index() as int;
        let ghost rest = s.skip(k);
        let ghost old_next = next as int;
        let ghost before = rows@;
        assert(rest[0] == s[k]);
        assert(rest.drop_first() =~= s.skip(k + 1));
        let index = f.index;
        if index as u128 > next {
            rows.push(Row::Hidden(next as usize, index - 1));
        }
        rows.push(Row::Shown(f));
        next = index as u128 + 1;
        proof {
            let g = s[k];
            let head = if g.index > old_next {
                seq![Row::Hidden(old_next as usize, (g.index - 1) as usize), Row::Shown(g)]
            } else {
                seq![Row::Shown(g)]
            };
            assert(layout_from(rest, old_next) == head + layout_from(s.skip(k + 1), g.index + 1));
            assert(rows@ =~= before + head);
            assert(before + layout_from(rest, old_next) =~= rows@ + layout_from(
                s.skip(k + 1),
                next as int,
            ));
        }
    }
    assert(s.skip(s.len() as int) =~= Seq::<Frame>::empty());
    if next <= last as u128 {
        rows.push(Row::Hidden(next as usize, last));
    }
    rows
}

/// The integers `a..b`.
pub open spec fn index_range(a: int, b: int) -> Seq<int> {
    Seq::new((b - a) as nat, |i: int| a + i)
}

/// The frame indices that a row stands for.
pub open spec fn row_indices(r: Row) -> Seq<int> {
    match r {
        Row::Hidden(a, b) => index_range(a as int, b + 1),
        Row::Shown(f) => seq![f.index as int],
    }
}

/// The frame indices that the rows stand for, in order.
pub open spec fn covered(rows: Seq<Row>) -> Seq<int>
    decreases rows.len(),
{
    if rows.len() == 0 {
        Seq::empty()
    } else {
        row_indices(rows[0]) + covered(rows.drop_first())
    }
}

/// The frames that the rows show, in order.
pub open spec fn shown(rows: Seq<Row>) -> Seq<Frame>
    decreases rows.len(),
{
    if rows.len() == 0 {
        Seq::empty()
    } else {
        (match rows[0] {
            Row::Shown(f) => seq![f],
            Row::Hidden(_, _) => Seq::empty(),
        }) + shown(rows.drop_first())
    }
}

pub open spec fn strictly_increasing(s: Seq<Frame>) -> bool {
    forall|i: int, j: int| 0 <= i < j < s.len() ==> s[i].index < s[j].index
}

/// Every marker covers at least one index, and none follows another.
pub open spec fn markers_apart(rows: Seq<Row>) -> bool {
    &&& forall|k: int| 0 <= k < rows.len() ==> (#[trigger] rows[k] matches Row::Hidden(a, b)
        ==> a <= b)
    &&& forall|k: int| 0 <= k < rows.len() - 1 ==> (#[trigger] rows[k] is Hidden ==> rows[k
        + 1] is Shown)
}

proof fn lemma_covered_concat(x: Seq<Row>, y: Seq<Row>)
    ensures
        covered(x + y) == covered(x) + covered(y),
        shown(x + y) == shown(x) + shown(y),
    decreases x.len(),
{
    if x.len() == 0 {
        assert(x + y =~= y);
    } else {
        lemma_covered_concat(x.drop_first(), y);
        assert((x + y).drop_first() =~= x.drop_first() + y);
        assert((x + y)[0] == x[0]);
    }
}

proof fn lemma_range_concat(a: int, b: int, c: int)
    requires
        a <= b <= c,
    ensures
        index_range(a, b) + index_range(b, c) == index_range(a, c),
{
    assert(index_range(a, b) + index_range(b, c) =~= index_range(a, c));
}

proof fn lemma_single(r: Row)
    ensures
        covered(seq![r]) == row_indices(r),
        shown(seq![r]) == (match r {
            Row::Shown(f) => seq![f],
            Row::Hidden(_, _) => Seq::<Frame>::empty(),
        }),
{
    let e = Seq::<Row>::empty();
    assert(seq![r].drop_first() =~= e);
    assert(covered(e) == Seq::<int>::empty());
    assert(shown(e) == Seq::<Frame>::empty());
    assert(seq![r][0] == r);
    assert(covered(seq![r]) == row_indices(r) + covered(e));
    assert(row_indices(r) + Seq::<int>::empty() =~= row_indices(r));
    match r {
        Row::Shown(f) => {
            assert(seq![f] + Seq::<Frame>::empty() =~= seq![f]);
        },
        Row::Hidden(_, _) => {
            assert(Seq::<Frame>::empty() + Seq::<Frame>::empty() =~= Seq::<Frame>::empty());
        },
    }
}

proof fn lemma_markers_concat(x: Seq<Row>, y: Seq<Row>)
    requires
        markers_apart(x),
        markers_apart(y),
        x.len() > 0 && y.len() > 0 ==> x.last() is Shown,
    ensures
        markers_apart(x + y),
        y.len() > 0 ==> (x + y).last() == y.last(),
        y.len() == 0 ==> x + y == x,
{
    let rows = x + y;
    assert forall|k: int| 0 <= k < rows.len() implies (#[trigger] rows[k] matches Row::Hidden(a, b)
        ==> a <= b) by {
        if k < x.len() {
            assert(rows[k] == x[k]);
        } else {
            assert(rows[k] == y[k - x.len()]);
        }
    }
    assert forall|k: int| 0 <= k < rows.len() - 1 implies (#[trigger] rows[k] is Hidden
        ==> rows[k + 1] is Shown) by {
        if k < x.len() - 1 {
            assert(rows[k] == x[k]);
            assert(rows[k + 1] == x[k + 1]);
        } else if k == x.len() - 1 {
            assert(rows[k] == x.last());
        } else {
            assert(rows[k] == y[k - x.len()]);
            assert(rows[k + 1] == y[k + 1 - x.len()]);
        }
    }
    if y.len() == 0 {
        assert(x + y =~= x);
    }
}

proof fn lemma_head(next: int, f: Frame)
    requires
        0 <= next <= f.index,
    ensures
        ({
            let head = if f.index > next {
                seq![Row::Hidden(next as usize, (f.index - 1) as usize), Row::Shown(f)]
            } else {
                seq![Row::Shown(f)]
            };
            &&& covered(head) == index_range(next, f.index + 1)
            &&& shown(head) == seq![f]
            &&& markers_apart(head)
            &&& head.last() is Shown
        }),
{
    let shown_row = seq![Row::Shown(f)];
    lemma_single(Row::Shown(f));
    assert(index_range(f.index as int, f.index + 1) =~= seq![f.index as int]);
    if f.index > next {
        let hidden_row = seq![Row::Hidden(next as usize, (f.index - 1) as usize)];
        lemma_single(Row::Hidden(next as usize, (f.index - 1) as usize));
        lemma_covered_concat(hidden_row, shown_row);
        assert(seq![Row::Hidden(next as usize, (f.index - 1) as usize), Row::Shown(f)]
            =~= hidden_row + shown_row);
        lemma_range_concat(next, f.index as int, f.index + 1);
        assert(shown(hidden_row) + shown(shown_row) =~= seq![f]);
    }
}

proof fn lemma_layout_from(s: Seq<Frame>, next: int)
    requires
        strictly_increasing(s),
        0 <= next,
        s.len() > 0 ==> s[0].index >= next,
    ensures
        next_after(s, next) >= next,
        s.len() > 0 ==> next_after(s, next) == s.last().index + 1,
        s.len() == 0 ==> next_after(s, next) == next,
        covered(layout_from(s, next)) == index_range(next, next_after(s, next)),
        shown(layout_from(s, next)) == s,
        markers_apart(layout_from(s, next)),
        layout_from(s, next).len() > 0 ==> layout_from(s, next).last() is Shown,
    decreases s.len(),
{
    if s.len() == 0 {
        assert(index_range(next, next) =~= Seq::<int>::empty());
        return;
    }
    let f = s[0];
    let t = s.drop_first();
    assert(strictly_increasing(t));
    assert(t.len() > 0 ==> t[0].index >= f.index + 1);
    lemma_layout_from(t, f.index + 1);
    let tail = layout_from(t, f.index + 1);
    let head = if f.index > next {
        seq![Row::Hidden(next as usize, (f.index - 1) as usize), Row::Shown(f)]
    } else {
        seq![Row::Shown(f)]
    };
    assert(layout_from(s, next) == head + tail);
    lemma_head(next, f);
    lemma_covered_concat(head, tail);
    lemma_markers_concat(head, tail);
    lemma_range_concat(next, f.index + 1, next_after(t, f.index + 1));
    assert(seq![f] + t =~= s);
    if t.len() > 0 {
        assert(t.last() == s.last());
    }
}

/// How the layout accounts for hidden frames, for frames in strictly
/// increasing index order up to `last`: the rows cover every index from 0 to
/// `last` exactly once and in order, each shown frame its own index and each
/// marker the whole run of indices between two shown frames (or before the
/// first, or after the last), so its count is exactly the number of frames
/// missing there; a marker is never empty and never follows another, and the
/// frames shown are the input frames.
pub proof fn layout_gaps(s: Seq<Frame>, last: usize)
    requires
        strictly_increasing(s),
        s.len() > 0 ==> s.last().index <= last,
    ensures
        covered(layout_spec(s, last)) == index_range(0, last + 1),
        shown(layout_spec(s, last)) == s,
        markers_apart(layout_spec(s, last)),
{
    lemma_layout_from(s, 0);
    let n = next_after(s, 0);
    let body = layout_from(s, 0);
    if last >= n {
        let trailer = seq![Row::Hidden(n as usize, last)];
        lemma_single(Row::Hidden(n as usize, last));
        lemma_covered_concat(body, trailer);
        lemma_range_concat(0, n, last + 1);
        assert(shown(body) + shown(trailer) =~= s);
        assert(markers_apart(trailer));
        lemma_markers_concat(body, trailer);
        assert(layout_spec(s, last) == body + trailer);
    } else {
        assert(layout_spec(s, last) =~= body);
    }
}

/// Where a frame's code is, as the report shows it.
pub open spec fn location_text(theme: Theme, loc: Option<LocationView>) -> Seq<char> {
    match loc {
        Some(l) => styled(theme.file, l.file) + ":"@ + styled(theme.line, decimal_text(l.line as nat)),
        None => UNKNOWN@,
    }
}

/// A frame as the report shows it: its index right-aligned in two columns,
/// its symbol (styled as dependency or as the user's own code) and hash, and
/// on a second line its location.
pub open spec fn frame_text(theme: Theme, f: Frame) -> Seq<char> {
    let parts = symbol_parts(f@.name);
    let name_style = if dependency_code(f@) {
        theme.dependency
    } else {
        theme.package
    };
    let hash = match parts.1 {
        Some(h) => h,
        None => Seq::empty(),
    };
    pad_left(decimal_text(f.index as nat), 2, " "@) + ": "@ + styled(name_style, parts.0) + styled(
        theme.hash,
        hash,
    ) + "\n    at "@ + location_text(theme, f@.location)
}

/// The words of a marker for `count` hidden frames.
pub open spec fn hidden_label(count: nat) -> Seq<char> {
    "⋮ "@ + decimal_text(count) + (if count == 1 {
        " frame"@
    } else {
        " frames"@
    }) + " hidden ⋮"@
}

/// A marker for `count` hidden frames, centred in the report's width.
pub open spec fn hidden_text(theme: Theme, count: nat) -> Seq<char> {
    styled(theme.hidden, center(hidden_label(count), WIDTH as nat, " "@))
}

pub open spec fn row_text(theme: Theme, r: Row) -> Seq<char> {
    match r {
        Row::Hidden(a, b) => hidden_text(theme, (b - a + 1) as nat),
        Row::Shown(f) => frame_text(theme, f),
    }
}

/// The rows, each on a line of its own after the one before.
pub open spec fn rows_text(theme: Theme, rows: Seq<Row>) -> Seq<char>
    decreases rows.len(),
{
    if rows.len() == 0 {
        Seq::empty()
    } else {
        rows_text(theme, rows.drop_last()) + "\n"@ + row_text(theme, rows.last())
    }
}

/// The title banner of a backtrace.
pub open spec fn banner() -> Seq<char> {
    center(" BACKTRACE "@, WIDTH as nat, "━"@)
}

/// The report for a backtrace that has no frames at all.
pub open spec fn empty_report() -> Seq<char> {
    banner() + center("<empty backtrace>"@, WIDTH as nat, " "@)
}

/// The report for the given rows.
pub open spec fn report_text(theme: Theme, rows: Seq<Row>) -> Seq<char> {
    banner() + rows_text(theme, rows)
}

pub(crate) fn location_line_text(theme: &Theme, loc: Option<&crate::location::Location>) -> (r: String)
    ensures
        r@ == location_text(
            *theme,
            match loc {
                Some(l) => Some(l@),
                None => None,
            },
        ),
{
    match loc {
        Some(l) => {
            let mut out = theme.file.style(l.file.as_str());
            out.append(":");
            let line = decimal(l.line as u128);
            let styled_line = theme.line.style(line.as_str());
            out.append(styled_line.as_str());
            out
        },
        None => String::from_str(UNKNOWN),
    }
}

/// A frame as the report shows it.
pub fn frame_line(theme: &Theme, f: &Frame) -> (r: String)
    ensures
        r@ == frame_text(*theme, *f),
{
    let (name, hash) = f.symbolify();
    let name_style = if f.is_dependency_code() {
        theme.dependency
    } else {
        theme.package
    };
    let index = decimal(f.index as u128);
    let mut out = padded_left(index.as_str(), 2, " ");
    out.append(": ");
    let styled_name = name_style.style(name);
    out.append(styled_name.as_str());
    let hash_text = match hash {
        Some(h) => h,
        None => "",
    };
    let styled_hash = theme.hash.style(hash_text);
    out.append(styled_hash.as_str());
    out.append("\n    at ");
    let loc = location_line_text(theme, f.location());
    out.append(loc.as_str());
    proof {
        reveal_strlit("");
    }
    assert(out@ =~= frame_text(*theme, *f));
    out
}

/// A marker for `count` hidden frames.
pub fn hidden_line(theme: &Theme, count: u128) -> (r: String)
    ensures
        r@ == hidden_text(*theme, count as nat),
{
    let mut label = String::from_str("⋮ ");
    let n = decimal(count);
    label.append(n.as_str());
    if count == 1 {
        label.append(" frame");
    } else {
        label.append(" frames");
    }
    label.append(" hidden ⋮");
    let line = centered(label.as_str(), WIDTH, " ");
    theme.hidden.style(line.as_str())
}

fn row_line(theme: &Theme, r: &Row) -> (s: String)
    requires
        *r matches Row::Hidden(a, b) ==> a <= b,
    ensures
        s@ == row_text(*theme, *r),
{
    match r {
        Row::Hidden(a, b) => hidden_line(theme, (*b - *a) as u128 + 1),
        Row::Shown(f) => frame_line(theme, f),
    }
}

/// The report for the given rows.
pub fn render_rows(theme: &Theme, rows: &Vec<Row>) -> (r: String)
    requires
        forall|k: int| 0 <= k < rows@.len() ==> (#[trigger] rows@[k] matches Row::Hidden(a, b)
            ==> a <= b),
    ensures
        r@ == report_text(*theme, rows@),
{
    let mut out = centered(" BACKTRACE ", WIDTH, "━");
    let mut i: usize = 0;
    assert(rows@.take(0) =~= Seq::<Row>::empty());
    while i < rows.len()
        invariant
            i <= rows@.len(),
            forall|k: int| 0 <= k < rows@.len() ==> (#[trigger] rows@[k] matches Row::Hidden(a, b)
                ==> a <= b),
            out@ == banner() + rows_text(*theme, rows@.take(i as int)),
        decreases rows@.len() - i,
    {
        out.append("\n");
        let line = row_line(theme, &rows[i]);
        out.append(line.as_str());
        proof {
            let t = rows@.take(i + 1);
            assert(t.drop_last() =~= rows@.take(i as int));
            assert(t.last() == rows@[i as int]);
        }
        i = i + 1;
        assert(out@ =~= banner() + rows_text(*theme, rows@.take(i as int)));
    }
    assert(rows@.take(rows@.len() as int) =~= rows@);
    out
}

/// The report for a backtrace without frames.
pub fn empty_backtrace() -> (r: String)
    ensures
        r@ == empty_report(),
{
    let mut out = centered(" BACKTRACE ", WIDTH, "━");
    let empty = centered("<empty backtrace>", WIDTH, " ");
    out.append(empty.as_str());
    out
}

} // verus!

verus! {

/// Every marker of a layout covers at least one index, whatever the order of
/// the frames.
pub proof fn layout_markers_nonempty(s: Seq<Frame>, last: usize)
    ensures
        forall|k: int|
            0 <= k < layout_spec(s, last).len() ==> (#[trigger] layout_spec(s, last)[k] matches Row::Hidden(
                a,
                b,
            ) ==> a <= b),
{
    lemma_layout_from_ordered(s, 0);
    lemma_next_after_nonneg(s, 0);
    let body = layout_from(s, 0);
    let n = next_after(s, 0);
    let rows = layout_spec(s, last);
    assert forall|k: int| 0 <= k < rows.len() implies (#[trigger] rows[k] matches Row::Hidden(a, b)
        ==> a <= b) by {
        if k < body.len() {
            assert(rows[k] == body[k]);
        }
    }
}

proof fn lemma_next_after_nonneg(s: Seq<Frame>, next: int)
    requires
        next >= 0,
    ensures
        next_after(s, next) >= 0,
    decreases s.len(),
{
    if s.len() > 0 {
        lemma_next_after_nonneg(s.drop_first(), s[0].index + 1);
    }
}

proof fn lemma_layout_from_ordered(s: Seq<Frame>, next: int)
    requires
        next >= 0,
    ensures
        forall|k: int|
            0 <= k < layout_from(s, next).len() ==> (#[trigger] layout_from(s, next)[k] matches Row::Hidden(
                a,
                b,
            ) ==> a <= b),
    decreases s.len(),
{
    if s.len() > 0 {
        let f = s[0];
        lemma_layout_from_ordered(s.drop_first(), f.index + 1);
        let tail = layout_from(s.drop_first(), f.index + 1);
        let head = if f.index > next {
            seq![Row::Hidden(next as usize, (f.index - 1) as usize), Row::Shown(f)]
        } else {
            seq![Row::Shown(f)]
        };
        let rows = head + tail;
        assert(layout_from(s, next) == rows);
        assert forall|k: int| 0 <= k < rows.len() implies (#[trigger] rows[k] matches Row::Hidden(
            a,
            b,
        ) ==> a <= b) by {
            if k >= head.len() {
                assert(rows[k] == tail[k - head.len()]);
            }
        }
    }
}

/// The report for frames `frames` of a backtrace whose highest index is
/// `last`, with markers for the frames hidden.
pub fn render_frames(theme: &Theme, frames: Vec<Frame>, last: usize) -> (r: String)
    ensures
        r@ == report_text(*theme, layout_spec(frames@, last)),
{
    proof {
        layout_markers_nonempty(frames@, last);
    }
    let rows = layout(frames, last);
    render_rows(theme, &rows)
}

} // verus!

verus! {

/// The index expected at frame `j` of `s` when the first is expected at
/// `next`: one past the index of the frame before it.
pub open spec fn expected_at(s: Seq<Frame>, next: int, j: int) -> int {
    if j == 0 {
        next
    } else {
        s[j - 1].index + 1
    }
}

/// The rows for frame `j`: a marker for the indices missing before it, when
/// any are, then the frame itself.
pub open spec fn frame_rows(s: Seq<Frame>, next: int, j: int) -> Seq<Row> {
    let e = expected_at(s, next, j);
    if s[j].index > e {
        seq![Row::Hidden(e as usize, (s[j].index - 1) as usize), Row::Shown(s[j])]
    } else {
        seq![Row::Shown(s[j])]
    }
}

proof fn lemma_layout_blocks(s: Seq<Frame>, next: int)
    ensures
        layout_from(s, next) == Seq::new(s.len(), |j: int| frame_rows(s, next, j)).flatten(),
    decreases s.len(),
{
    let blocks = Seq::new(s.len(), |j: int| frame_rows(s, next, j));
    if s.len() == 0 {
        assert(blocks =~= Seq::<Seq<Row>>::empty());
        return;
    }
    let t = s.drop_first();
    let nx = s[0].index + 1;
    lemma_layout_blocks(t, nx);
    let rest = Seq::new(t.len(), |j: int| frame_rows(t, nx, j));
    assert forall|j: int| 0 <= j < rest.len() implies #[trigger] blocks.drop_first()[j] == rest[j] by {
        assert(t[j] == s[j + 1]);
        if j > 0 {
            assert(t[j - 1] == s[j]);
        }
    }
    assert(blocks.drop_first() =~= rest);
    assert(blocks.first() == frame_rows(s, next, 0));
}

/// The layout frame by frame, for frames in strictly increasing index order:
/// before frame `j` stands exactly one marker when indices are missing
/// between it and the frame before it (or index 0, for the first frame), and
/// none otherwise; the marker covers exactly the missing indices, so its count
/// is `s[0].index` before the first frame and `s[j].index - s[j - 1].index - 1`
/// before any other. A last marker covers the indices after the last frame up
/// to `last`, when there are any.
pub proof fn layout_per_gap(s: Seq<Frame>, last: usize)
    requires
        strictly_increasing(s),
    ensures
        layout_spec(s, last) == Seq::new(s.len(), |j: int| frame_rows(s, 0, j)).flatten() + if last
            >= next_after(s, 0) {
            seq![Row::Hidden(next_after(s, 0) as usize, last)]
        } else {
            Seq::empty()
        },
        forall|j: int|
            0 <= j < s.len() ==> {
                let gap = s[j].index - expected_at(s, 0, j);
                &&& gap >= 0
                &&& (gap > 0 <==> (#[trigger] frame_rows(s, 0, j)).len() == 2)
                &&& gap > 0 ==> frame_rows(s, 0, j)[0] == Row::Hidden(
                    expected_at(s, 0, j) as usize,
                    (expected_at(s, 0, j) + gap - 1) as usize,
                )
                &&& frame_rows(s, 0, j).last() == Row::Shown(s[j])
            },
        s.len() > 0 ==> next_after(s, 0) == s.last().index + 1,
        s.len() == 0 ==> next_after(s, 0) == 0,
{
    lemma_layout_blocks(s, 0);
    if s.len() > 0 {
        lemma_layout_from(s, 0);
    }
    assert forall|j: int| 0 <= j < s.len() implies {
        let gap = s[j].index - expected_at(s, 0, j);
        &&& gap >= 0
        &&& (gap > 0 <==> (#[trigger] frame_rows(s, 0, j)).len() == 2)
        &&& gap > 0 ==> frame_rows(s, 0, j)[0] == Row::Hidden(
            expected_at(s, 0, j) as usize,
            (expected_at(s, 0, j) + gap - 1) as usize,
        )
        &&& frame_rows(s, 0, j).last() == Row::Shown(s[j])
    } by {
        if j > 0 {
            assert(s[j - 1].index < s[j].index);
        }
    }
}

} // verus!

verus! {

proof fn lemma_rows_text_concat(theme: Theme, x: Seq<Row>, y: Seq<Row>)
    ensures
        rows_text(theme, x + y) == rows_text(theme, x) + rows_text(theme, y),
    decreases y.len(),
{
    if y.len() == 0 {
        assert(x + y =~= x);
        assert(rows_text(theme, x) + Seq::<char>::empty() =~= rows_text(theme, x));
    } else {
        lemma_rows_text_concat(theme, x, y.drop_last());
        assert((x + y).drop_last() =~= x + y.drop_last());
        assert((x + y).last() == y.last());
        assert(rows_text(theme, x + y) =~= rows_text(theme, x) + rows_text(theme, y));
    }
}

proof fn lemma_rows_text_flatten(theme: Theme, b: Seq<Seq<Row>>)
    ensures
        rows_text(theme, b.flatten()) == b.map_values(|r: Seq<Row>| rows_text(theme, r)).flatten(),
    decreases b.len(),
{
    let texts = b.map_values(|r: Seq<Row>| rows_text(theme, r));
    if b.len() == 0 {
        assert(texts =~= Seq::<Seq<char>>::empty());
        return;
    }
    lemma_rows_text_flatten(theme, b.drop_first());
    lemma_rows_text_concat(theme, b.first(), b.drop_first().flatten());
    assert(texts.drop_first() =~= b.drop_first().map_values(|r: Seq<Row>| rows_text(theme, r)));
    assert(texts.first() == rows_text(theme, b.first()));
}

proof fn lemma_rows_text_one(theme: Theme, r: Row)
    ensures
        rows_text(theme, seq![r]) == "\n"@ + row_text(theme, r),
{
    assert(seq![r].drop_last() =~= Seq::<Row>::empty());
    assert(rows_text(theme, Seq::<Row>::empty()) == Seq::<char>::empty());
    assert(seq![r].last() == r);
    assert(rows_text(theme, seq![r]) =~= "\n"@ + row_text(theme, r));
}

proof fn lemma_rows_text_two(theme: Theme, r1: Row, r2: Row)
    ensures
        rows_text(theme, seq![r1, r2]) == "\n"@ + row_text(theme, r1) + "\n"@ + row_text(theme, r2),
{
    lemma_rows_text_one(theme, r1);
    assert(seq![r1, r2].drop_last() =~= seq![r1]);
    assert(seq![r1, r2].last() == r2);
}

/// The text of the rows for frame `j`: a line with a marker for the frames
/// missing before it, when any are, then the frame's own lines.
pub open spec fn gap_text(theme: Theme, s: Seq<Frame>, j: int) -> Seq<char> {
    let gap = s[j].index - expected_at(s, 0, j);
    (if gap > 0 {
        "\n"@ + hidden_text(theme, gap as nat)
    } else {
        Seq::empty()
    }) + "\n"@ + frame_text(theme, s[j])
}

/// The report, frame by frame, for frames in strictly increasing index
/// order: after the banner, each frame is preceded by exactly one marker
/// line when indices are missing before it, reading the number missing
/// (`s[0].index` before the first frame, `s[j].index - s[j - 1].index - 1`
/// before any other), and by none otherwise; a last marker line counts the
/// indices after the last frame up to `last`, when there are any.
pub proof fn report_per_gap(theme: Theme, s: Seq<Frame>, last: usize)
    requires
        strictly_increasing(s),
    ensures
        report_text(theme, layout_spec(s, last)) == banner() + Seq::new(
            s.len(),
            |j: int| gap_text(theme, s, j),
        ).flatten() + if last >= next_after(s, 0) {
            "\n"@ + hidden_text(theme, (last - next_after(s, 0) + 1) as nat)
        } else {
            Seq::empty()
        },
{
    layout_per_gap(s, last);
    let blocks = Seq::new(s.len(), |j: int| frame_rows(s, 0, j));
    let n = next_after(s, 0);
    let trailer = if last >= n {
        seq![Row::Hidden(n as usize, last)]
    } else {
        Seq::<Row>::empty()
    };
    lemma_rows_text_concat(theme, blocks.flatten(), trailer);
    lemma_rows_text_flatten(theme, blocks);
    let texts = blocks.map_values(|r: Seq<Row>| rows_text(theme, r));
    assert forall|j: int| 0 <= j < s.len() implies #[trigger] texts[j] == gap_text(theme, s, j) by {
        let rows = frame_rows(s, 0, j);
        assert(texts[j] == rows_text(theme, rows));
        if j > 0 {
            assert(s[j - 1].index < s[j].index);
        }
        let e = expected_at(s, 0, j);
        let gap = s[j].index - e;
        if gap > 0 {
            let h = Row::Hidden(e as usize, (s[j].index - 1) as usize);
            lemma_rows_text_two(theme, h, Row::Shown(s[j]));
            assert(row_text(theme, h) == hidden_text(theme, gap as nat));
            assert(rows_text(theme, rows) =~= gap_text(theme, s, j));
        } else {
            lemma_rows_text_one(theme, Row::Shown(s[j]));
            assert(rows_text(theme, rows) =~= gap_text(theme, s, j));
        }
    }
    assert(texts =~= Seq::new(s.len(), |j: int| gap_text(theme, s, j)));
    if last >= n {
        lemma_rows_text_one(theme, Row::Hidden(n as usize, last));
        assert(n >= 0) by {
            if s.len() > 0 {
                assert(n == s.last().index + 1);
            }
        }
        assert(row_text(theme, Row::Hidden(n as usize, last)) == hidden_text(
            theme,
            (last - n + 1) as nat,
        ));
    } else {
        assert(rows_text(theme, trailer) =~= Seq::<char>::empty());
    }
    assert(report_text(theme, layout_spec(s, last)) =~= banner() + (texts.flatten() + rows_text(
        theme,
        trailer,
    )));
}

} // verus!
