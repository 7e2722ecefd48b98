//! Flattens the call entries of a runtime backtrace into frames.
use vstd::prelude::*;

use crate::frame::{frames_view, Frame, FrameView};
use crate::location::{Location, LocationView};

verus! {

broadcast use vstd::std_specs::vec::axiom_spec_into_iter;

/// One resolved symbol of a call entry: a call entry may stand for several
/// inlined symbols.
pub struct Symbol {
    pub name: Option<String>,
    pub file: Option<String>,
    pub line: Option<u32>,
}

/// The frame that a symbol gives at position `index` of the flattened list;
/// it has a location only when both file and line are known.
pub open spec fn symbol_frame(s: Symbol, index: nat) -> FrameView {
    FrameView {
        index,
        name: match s.name {
            Some(n) => Some(n@),
            None => None,
        },
        location: match (s.file, s.line) {
            (Some(f), Some(l)) => Some(LocationView { file: f@, line: l }),
            _ => None,
        },
    }
}

/// The symbols of all call entries, in order.
pub open spec fn flattened(entries: Seq<Vec<Symbol>>) -> Seq<Symbol> {
    entries.map_values(|v: Vec<Symbol>| v@).flatten()
}

/// The frames of a flattened symbol list, numbered by position.
pub open spec fn converted(syms: Seq<Symbol>) -> Seq<FrameView> {
    syms.map(|k: int, s: Symbol| symbol_frame(s, k as nat))
}

impl Symbol {
    pub fn new(name: Option<String>, file: Option<String>, line: Option<u32>) -> (r: Symbol)
        ensures
            r.name == name,
            r.file == file,
            r.line == line,
    {
        Symbol { name, file, line }
    }
}

/// Frames for the symbols of all call entries, numbered continuously across
/// entries: a frame's index is its symbol's position in the flattened list.
pub fn frames_from_entries(entries: Vec<Vec<Symbol>>) -> (r: Vec<Frame>)
    ensures
        frames_view(r@) == converted(flattened(entries@)),
{
    let ghost es = entries@;
    let mut out: Vec<Frame> = Vec::new();
    assert(es.take(0).map_values(|v: Vec<Symbol>| v@) =~= Seq::<Seq<Symbol>>::empty());
    assert(frames_view(out@) =~= converted(flattened(es.take(0))));
    for entry in it: entries.into_iter()
        invariant
            it.seq() == es,
            frames_view(out@) == converted(flattened(es.take(it.index() as int))),
    {
        let ghost i = it.index() as int;
        let ghost before = flattened(es.take(i));
        let ghost e = entry@;
        assert(es[i] == entry);
        for sym in jt: entry.into_iter()
            invariant
                jt.seq() == e,
                frames_view(out@) == converted(before + e.take(jt.index() as int)),
        {
            let ghost j = jt.index() as int;
            let ghost prefix = before + e.take(j);
            let ghost old_out = out@;
            assert(before + e.take(j + 1) =~= prefix.push(sym));
            let Symbol { name, file, line } = sym;
            let location = match (file, line) {
                (Some(f), Some(l)) => Some(Location { file: f, line: l }),
                _ => None,
            };
            let index = out.len();
            out.push(Frame { index, name, location });
            proof {
                assert(frames_view(old_out).len() == old_out.len());
                assert(converted(prefix).len() == prefix.len());
                assert(frames_view(out@) =~= frames_view(old_out).push(symbol_frame(sym, index as nat)));
                assert(converted(prefix.push(sym)) =~= converted(prefix).push(symbol_frame(sym, index as nat)));
            }
        }
        proof {
            assert(e.take(e.len() as int) =~= e);
            let f = |v: Vec<Symbol>| v@;
            assert(es.take(i + 1).map_values(f) =~= es.take(i).map_values(f).push(e));
            es.take(i).map_values(f).lemma_flatten_push(e);
        }
    }
    assert(es.take(es.len() as int) =~= es);
    out
}

} // verus!
