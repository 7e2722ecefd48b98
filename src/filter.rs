//! The ordered reduction that removes noise frames from a backtrace.
use vstd::prelude::*;

use crate::classify::{internal_machinery, post_panic_code, runtime_init_code};
use crate::frame::Frame;

verus! {

broadcast use vstd::std_specs::vec::axiom_spec_into_iter;

/// A filter that a user registers beside the built-in ones. It may remove,
/// keep or reorder frames; the pipeline restores index order after it.
pub trait FrameFilter: Send + Sync {
    fn apply(&self, frames: &mut Vec<Frame>);
}

/// One step of the filter pipeline.
pub enum Filter {
    /// Trims the panic machinery at the top and the runtime start-up at the bottom.
    Runtime,
    /// Removes the frames of the error-reporting libraries themselves.
    Internal,
    /// A filter supplied by the user.
    Custom(Box<dyn FrameFilter>),
}

/// One past the position of the last post-panic frame, or 0 if there is none.
pub open spec fn top_of(s: Seq<Frame>) -> int
    decreases s.len(),
{
    if s.len() == 0 {
        0
    } else if post_panic_code(s.last()@) {
        s.len() as int
    } else {
        top_of(s.drop_last())
    }
}

/// The position of the first runtime start-up frame, or the length if there is none.
pub open spec fn bottom_of(s: Seq<Frame>) -> int
    decreases s.len(),
{
    if s.len() == 0 {
        0
    } else if runtime_init_code(s[0]@) {
        0
    } else {
        1 + bottom_of(s.drop_first())
    }
}

/// The frames whose index lies in `[top_of(s), bottom_of(s))`, in order.
pub open spec fn runtime_kept(s: Seq<Frame>) -> Seq<Frame> {
    s.filter(|f: Frame| top_of(s) <= f.index < bottom_of(s))
}

/// The frames that are not internal machinery, in order.
pub open spec fn internal_kept(s: Seq<Frame>) -> Seq<Frame> {
    s.filter(|f: Frame| !internal_machinery(f@))
}

/// `s` (sorted by index) with `x` placed after every frame whose index is at
/// most `x`'s.
pub open spec fn insert_by_index(s: Seq<Frame>, x: Frame) -> Seq<Frame>
    decreases s.len(),
{
    if s.len() == 0 || s.last().index <= x.index {
        s.push(x)
    } else {
        insert_by_index(s.drop_last(), x).push(s.last())
    }
}

/// `s` sorted by index; frames with equal indices keep their order.
pub open spec fn sort_by_index(s: Seq<Frame>) -> Seq<Frame>
    decreases s.len(),
{
    if s.len() == 0 {
        s
    } else {
        insert_by_index(sort_by_index(s.drop_last()), s.last())
    }
}

pub open spec fn sorted_by_index(s: Seq<Frame>) -> bool {
    forall|i: int, j: int| 0 <= i <= j < s.len() ==> s[i].index <= s[j].index
}

/// What a built-in filter step does to the frames. A user's filter is not
/// described here: its arm is a placeholder, and every contract that uses
/// this function either holds only when all filters are built-in
/// ([`builtin_only`]) or applies it to built-in filters alone.
pub open spec fn step_result(f: Filter, s: Seq<Frame>) -> Seq<Frame>
    recommends
        !(f is Custom),
{
    match f {
        Filter::Runtime => runtime_kept(s),
        Filter::Internal => internal_kept(s),
        Filter::Custom(_) => s,
    }
}

pub open spec fn builtin_only(fs: Seq<Filter>) -> bool {
    forall|i: int| 0 <= i < fs.len() ==> !(#[trigger] fs[i] is Custom)
}

/// The built-in filters `fs` applied in order, re-sorting after each one.
pub open spec fn pipeline(fs: Seq<Filter>, s: Seq<Frame>) -> Seq<Frame>
    decreases fs.len(),
{
    if fs.len() == 0 {
        s
    } else {
        sort_by_index(step_result(fs.last(), pipeline(fs.drop_last(), s)))
    }
}

proof fn lemma_filter_take_step(s: Seq<Frame>, pred: spec_fn(Frame) -> bool, k: int)
    requires
        0 <= k < s.len(),
    ensures
        s.take(k + 1).filter(pred) == (if pred(s[k]) {
            s.take(k).filter(pred).push(s[k])
        } else {
            s.take(k).filter(pred)
        }),
{
    reveal(Seq::filter);
    assert(s.take(k + 1).drop_last() =~= s.take(k));
    assert(s.take(k + 1).last() == s[k]);
}

/// Trims the frames outside `[top, bottom)`: `top` is one past the position of
/// the last post-panic frame (0 if there is none), `bottom` the position of the
/// first runtime start-up frame (the number of frames if there is none).
/// Frames are compared by their own index.
pub fn runtime(frames: &mut Vec<Frame>)
    ensures
        final(frames)@ == runtime_kept(old(frames)@),
{
    let ghost s = frames@;
    let mut top = frames.len();
    assert(s.take(s.len() as int) =~= s);
    while top > 0 && !frames[top - 1].is_post_panic_code()
        invariant
            top <= frames@.len(),
            frames@ == s,
            top_of(s) == top_of(s.take(top as int)),
        decreases top,
    {
        assert(s.take(top as int).drop_last() =~= s.take(top - 1));
        top = top - 1;
    }
    assert(top > 0 ==> s.take(top as int).last() == s[top - 1]);
    assert(top == 0 ==> s.take(top as int).len() == 0);
    let mut bottom: usize = 0;
    assert(s.skip(0) =~= s);
    while bottom < frames.len() && !frames[bottom].is_runtime_init_code()
        invariant
            bottom <= frames@.len(),
            frames@ == s,
            bottom_of(s) == bottom + bottom_of(s.skip(bottom as int)),
        decreases frames@.len() - bottom,
    {
        assert(s.skip(bottom as int).drop_first() =~= s.skip(bottom + 1));
        bottom = bottom + 1;
    }
    assert(bottom < s.len() ==> s.skip(bottom as int)[0] == s[bottom as int]);
    assert(bottom == s.len() ==> s.skip(bottom as int).len() == 0);
    let ghost pred = |f: Frame| top_of(s) <= f.index < bottom_of(s);
    let mut old: Vec<Frame> = Vec::new();
    std::mem::swap(frames, &mut old);
    for f in it: old.into_iter()
        invariant
            it.seq() == s,
            top == top_of(s),
            bottom == bottom_of(s),
            pred == (|f: Frame| top_of(s) <= f.index < bottom_of(s)),
            frames@ == s.take(it.index() as int).filter(pred),
    {
        proof {
            lemma_filter_take_step(s, pred, it.index() as int);
        }
        if top <= f.index && f.index < bottom {
            frames.push(f);
        }
    }
    assert(s.take(s.len() as int) =~= s);
}

/// Removes every frame of the error-reporting libraries, wherever it stands.
pub fn internal(frames: &mut Vec<Frame>)
    ensures
        final(frames)@ == internal_kept(old(frames)@),
{
    let ghost s = frames@;
    let ghost pred = |f: Frame| !internal_machinery(f@);
    let mut old: Vec<Frame> = Vec::new();
    std::mem::swap(frames, &mut old);
    for f in it: old.into_iter()
        invariant
            it.seq() == s,
            pred == (|f: Frame| !internal_machinery(f@)),
            frames@ == s.take(it.index() as int).filter(pred),
    {
        proof {
            lemma_filter_take_step(s, pred, it.index() as int);
        }
        if !f.is_internal_machinery() {
            frames.push(f);
        }
    }
    assert(s.take(s.len() as int) =~= s);
}


proof fn lemma_insert_sorted(s: Seq<Frame>, x: Frame)
    requires
        sorted_by_index(s),
    ensures
        sorted_by_index(insert_by_index(s, x)),
        insert_by_index(s, x).len() == s.len() + 1,
        insert_by_index(s, x).last().index == (if s.len() == 0 || s.last().index <= x.index {
            x.index
        } else {
            s.last().index
        }),
    decreases s.len(),
{
    if s.len() == 0 || s.last().index <= x.index {
    } else {
        let t = s.drop_last();
        assert(sorted_by_index(t));
        lemma_insert_sorted(t, x);
        let r = insert_by_index(t, x);
        assert(t.len() == 0 || t.last().index <= s.last().index);
        assert forall|i: int, j: int| 0 <= i <= j < r.len() + 1 implies r.push(
            s.last(),
        )[i].index <= r.push(s.last())[j].index by {
            if j == r.len() {
                if i < r.len() {
                    assert(r[i].index <= r.last().index);
                }
            }
        }
    }
}

/// Sorting by index yields frames in ascending index order.
pub proof fn sort_by_index_sorted(s: Seq<Frame>)
    ensures
        sorted_by_index(sort_by_index(s)),
        sort_by_index(s).len() == s.len(),
    decreases s.len(),
{
    if s.len() > 0 {
        sort_by_index_sorted(s.drop_last());
        lemma_insert_sorted(sort_by_index(s.drop_last()), s.last());
    }
}

/// Frames already in index order are left as they are by sorting.
pub proof fn sort_by_index_keeps_sorted(s: Seq<Frame>)
    requires
        sorted_by_index(s),
    ensures
        sort_by_index(s) == s,
    decreases s.len(),
{
    if s.len() > 0 {
        let t = s.drop_last();
        assert(sorted_by_index(t));
        sort_by_index_keeps_sorted(t);
        assert(t.len() == 0 || t.last().index <= s.last().index);
        assert(t.push(s.last()) =~= s);
    }
}

fn insert_in_order(v: &mut Vec<Frame>, x: Frame)
    ensures
        final(v)@ == insert_by_index(old(v)@, x),
{
    let ghost s = v@;
    let mut p = v.len();
    assert(s.take(s.len() as int) =~= s);
    assert(s.skip(s.len() as int) =~= Seq::<Frame>::empty());
    while p > 0 && v[p - 1].index > x.index
        invariant
            p <= v@.len(),
            v@ == s,
            insert_by_index(s, x) == insert_by_index(s.take(p as int), x) + s.skip(p as int),
        decreases p,
    {
        let ghost t = s.take(p as int);
        assert(t.drop_last() =~= s.take(p - 1));
        assert(t.last() == s[p - 1]);
        assert(insert_by_index(t, x) == insert_by_index(s.take(p - 1), x).push(s[p - 1]));
        assert(insert_by_index(s.take(p - 1), x).push(s[p - 1]) + s.skip(p as int)
            =~= insert_by_index(s.take(p - 1), x) + s.skip(p - 1));
        p = p - 1;
    }
    let ghost t = s.take(p as int);
    assert(p > 0 ==> t.last() == s[p - 1]);
    assert(insert_by_index(t, x) == t.push(x));
    v.insert(p, x);
    assert(v@ =~= t.push(x) + s.skip(p as int));
}

/// Sorts the frames by index; frames with equal indices keep their order.
pub fn sort_frames(frames: &mut Vec<Frame>)
    ensures
        final(frames)@ == sort_by_index(old(frames)@),
        sorted_by_index(final(frames)@),
{
    let ghost s = frames@;
    let mut old: Vec<Frame> = Vec::new();
    std::mem::swap(frames, &mut old);
    assert(s.take(0) =~= Seq::<Frame>::empty());
    for f in it: old.into_iter()
        invariant
            it.seq() == s,
            frames@ == sort_by_index(s.take(it.index() as int)),
    {
        proof {
            let k = it.index() as int;
            assert(s.take(k + 1).drop_last() =~= s.take(k));
            assert(s.take(k + 1).last() == s[k]);
        }
        insert_in_order(frames, f);
    }
    assert(s.take(s.len() as int) =~= s);
    proof {
        sort_by_index_sorted(s);
    }
}

impl Filter {
    /// Applies this filter to the frames.
    pub fn apply(&self, frames: &mut Vec<Frame>)
        ensures
            !(*self is Custom) ==> final(frames)@ == step_result(*self, old(frames)@),
    {
        match self {
            Filter::Runtime => runtime(frames),
            Filter::Internal => internal(frames),
            Filter::Custom(f) => f.apply(frames),
        }
    }
}

impl Frame {
    /// The built-in filters, in the order in which they run.
    pub fn default_filters() -> (r: Vec<Filter>)
        ensures
            r@.len() == 2,
            r@[0] is Runtime,
            r@[1] is Internal,
    {
        vec![Filter::Runtime, Filter::Internal]
    }
}

/// A run of the filters `fs` on `start`: filter `i` was given `ins[i]` and
/// left `outs[i]`. The first filter is given `start`, each later one what the
/// filter before it left, sorted by index; a built-in filter leaves what it
/// is specified to leave, a user's filter anything.
pub open spec fn filter_run(
    fs: Seq<Filter>,
    start: Seq<Frame>,
    ins: Seq<Seq<Frame>>,
    outs: Seq<Seq<Frame>>,
) -> bool {
    &&& ins.len() == fs.len()
    &&& outs.len() == fs.len()
    &&& fs.len() > 0 ==> ins[0] == start
    &&& forall|i: int| 0 < i < fs.len() ==> #[trigger] ins[i] == sort_by_index(outs[i - 1])
    &&& forall|i: int|
        0 <= i < fs.len() && !(fs[i] is Custom) ==> #[trigger] outs[i] == step_result(
            fs[i],
            ins[i],
        )
}

/// The frames left after a run: what the last filter left, sorted by index,
/// or `start` when there are no filters.
pub open spec fn run_result(start: Seq<Frame>, outs: Seq<Seq<Frame>>) -> Seq<Frame> {
    if outs.len() == 0 {
        start
    } else {
        sort_by_index(outs.last())
    }
}

/// Applies the filters in order and restores index order after each one:
/// each filter is given what the one before it left, sorted by index.
pub fn apply_filters(filters: &Vec<Filter>, frames: &mut Vec<Frame>)
    ensures
        exists|ins: Seq<Seq<Frame>>, outs: Seq<Seq<Frame>>|
            #[trigger] filter_run(filters@, old(frames)@, ins, outs) && final(frames)@
                == run_result(old(frames)@, outs),
        builtin_only(filters@) ==> final(frames)@ == pipeline(filters@, old(frames)@),
        filters@.len() > 0 ==> sorted_by_index(final(frames)@),
        filters@.len() == 0 ==> final(frames)@ == old(frames)@,
{
    let ghost s = frames@;
    let ghost mut ins: Seq<Seq<Frame>> = Seq::empty();
    let ghost mut outs: Seq<Seq<Frame>> = Seq::empty();
    let mut i: usize = 0;
    assert(filters@.take(0) =~= Seq::<Filter>::empty());
    while i < filters.len()
        invariant
            i <= filters@.len(),
            filter_run(filters@.take(i as int), s, ins, outs),
            frames@ == run_result(s, outs),
            builtin_only(filters@.take(i as int)) ==> frames@ == pipeline(
                filters@.take(i as int),
                s,
            ),
            i > 0 ==> sorted_by_index(frames@),
            i == 0 ==> frames@ == s,
        decreases filters@.len() - i,
    {
        let ghost before = frames@;
        filters[i].apply(frames);
        let ghost after = frames@;
        sort_frames(frames);
        proof {
            let t = filters@.take(i + 1);
            assert(t.drop_last() =~= filters@.take(i as int));
            assert(t.last() == filters@[i as int]);
            if builtin_only(t) {
                assert(!(t[i as int] is Custom));
                assert(builtin_only(filters@.take(i as int)));
            }
            let ins2 = ins.push(before);
            let outs2 = outs.push(after);
            assert forall|k: int| 0 < k < t.len() implies #[trigger] ins2[k] == sort_by_index(
                outs2[k - 1],
            ) by {
                if k < i {
                    assert(t[k] == filters@.take(i as int)[k]);
                }
            }
            assert forall|k: int| 0 <= k < t.len() && !(t[k] is Custom) implies #[trigger] outs2[k]
                == step_result(t[k], ins2[k]) by {
                if k < i {
                    assert(t[k] == filters@.take(i as int)[k]);
                }
            }
            ins = ins2;
            outs = outs2;
        }
        i = i + 1;
    }
    assert(filters@.take(filters@.len() as int) =~= filters@);
}

proof fn lemma_top(s: Seq<Frame>)
    ensures
        0 <= top_of(s) <= s.len(),
        top_of(s) > 0 ==> post_panic_code(s[top_of(s) - 1]@),
        forall|i: int| top_of(s) <= i < s.len() ==> !post_panic_code(#[trigger] s[i]@),
    decreases s.len(),
{
    if s.len() > 0 && !post_panic_code(s.last()@) {
        lemma_top(s.drop_last());
        assert forall|i: int| top_of(s) <= i < s.len() implies !post_panic_code(
            #[trigger] s[i]@,
        ) by {
            if i < s.len() - 1 {
                assert(s.drop_last()[i] == s[i]);
            }
        }
    }
}

proof fn lemma_bottom(s: Seq<Frame>)
    ensures
        0 <= bottom_of(s) <= s.len(),
        bottom_of(s) < s.len() ==> runtime_init_code(s[bottom_of(s)]@),
        forall|i: int| 0 <= i < bottom_of(s) ==> !runtime_init_code(#[trigger] s[i]@),
    decreases s.len(),
{
    if s.len() > 0 && !runtime_init_code(s[0]@) {
        let t = s.drop_first();
        lemma_bottom(t);
        assert(bottom_of(s) < s.len() ==> s[bottom_of(s)] == t[bottom_of(t)]);
        assert forall|i: int| 0 <= i < bottom_of(s) implies !runtime_init_code(
            #[trigger] s[i]@,
        ) by {
            if i > 0 {
                assert(t[i - 1] == s[i]);
            }
        }
    }
}

/// After the runtime-boundary trim every frame left has an index in
/// `[top, bottom)`. `top` is one past the position of the last post-panic
/// frame, and 0 when there is none; `bottom` is the position of the first
/// runtime start-up frame, and the number of frames when there is none.
pub proof fn runtime_trim_range(s: Seq<Frame>)
    ensures
        forall|k: int|
            0 <= k < runtime_kept(s).len() ==> top_of(s) <= (#[trigger] runtime_kept(s)[k]).index
                < bottom_of(s),
        (forall|i: int| 0 <= i < s.len() ==> !post_panic_code(#[trigger] s[i]@)) ==> top_of(s)
            == 0,
        (forall|i: int| 0 <= i < s.len() ==> !runtime_init_code(#[trigger] s[i]@)) ==> bottom_of(
            s,
        ) == s.len(),
        top_of(s) > 0 ==> post_panic_code(s[top_of(s) - 1]@),
        forall|i: int| top_of(s) <= i < s.len() ==> !post_panic_code(#[trigger] s[i]@),
        bottom_of(s) < s.len() ==> runtime_init_code(s[bottom_of(s)]@),
        forall|i: int| 0 <= i < bottom_of(s) ==> !runtime_init_code(#[trigger] s[i]@),
{
    lemma_top(s);
    lemma_bottom(s);
    let pred = |f: Frame| top_of(s) <= f.index < bottom_of(s);
    assert forall|k: int| 0 <= k < runtime_kept(s).len() implies top_of(s) <= (
    #[trigger] runtime_kept(s)[k]).index < bottom_of(s) by {
        s.lemma_filter_pred(pred, k);
    }
    if top_of(s) > 0 {
        assert(post_panic_code(s[top_of(s) - 1]@));
    }
    if bottom_of(s) < s.len() {
        assert(runtime_init_code(s[bottom_of(s)]@));
    }
}

} // verus!
