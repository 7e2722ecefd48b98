use vstd::prelude::*;

use crate::location::{Location, LocationView};
use crate::text::{is_hex_digit, is_hex_digit_char, to_chars};

verus! {

/// Text shown where a frame has no symbol name or no location.
pub const UNKNOWN: &'static str = "<unknown>";

/// Representation of a single frame in a backtrace.
///
/// `index` is the frame's position in the backtrace as captured, before any
/// filtering; filtering never renumbers frames, so gaps in the indices show which
/// frames were removed.
#[derive(Debug, Clone, PartialEq, Eq)]
pub struct Frame {
    pub index: usize,
    pub name: Option<String>,
    pub location: Option<Location>,
}

/// What a [`Frame`] holds, as plain values.
pub struct FrameView {
    pub index: nat,
    pub name: Option<Seq<char>>,
    pub location: Option<LocationView>,
}

impl View for Frame {
    type V = FrameView;

    open spec fn view(&self) -> FrameView {
        FrameView {
            index: self.index as nat,
            name: match self.name {
                Some(n) => Some(n@),
                None => None,
            },
            location: match self.location {
                Some(l) => Some(l@),
                None => None,
            },
        }
    }
}

/// The views of a sequence of frames.
pub open spec fn frames_view(s: Seq<Frame>) -> Seq<FrameView> {
    s.map_values(|f: Frame| f@)
}

/// Whether a symbol name ends in a compiler hash: `"::h"` followed by
/// sixteen hexadecimal digits, with at least one character before them.
pub open spec fn has_hash_suffix(n: Seq<char>) -> bool {
    &&& n.len() > 19
    &&& n[n.len() - 19] == ':'
    &&& n[n.len() - 18] == ':'
    &&& n[n.len() - 17] == 'h'
    &&& forall|i: int| n.len() - 16 <= i < n.len() ==> is_hex_digit(#[trigger] n[i])
}

/// The displayed base of a symbol name and its hash suffix, if any.
pub open spec fn symbol_parts(name: Option<Seq<char>>) -> (Seq<char>, Option<Seq<char>>) {
    match name {
        None => (UNKNOWN@, None),
        Some(n) => if has_hash_suffix(n) {
            (n.take(n.len() - 19), Some(n.skip(n.len() - 19)))
        } else {
            (n, None)
        },
    }
}

pub open spec fn opt_str_view(o: Option<&str>) -> Option<Seq<char>> {
    match o {
        Some(s) => Some(s@),
        None => None,
    }
}

/// A name that ends in a compiler hash splits into everything before the
/// last nineteen characters and those nineteen characters, `"::h"` included;
/// the two parts together give the name back.
pub proof fn hash_suffix_split(n: Seq<char>)
    requires
        n.len() > 19,
        n.subrange(n.len() - 19, n.len() - 16) == seq![':', ':', 'h'],
        forall|i: int| n.len() - 16 <= i < n.len() ==> is_hex_digit(#[trigger] n[i]),
    ensures
        symbol_parts(Some(n)) == (n.take(n.len() - 19), Some(n.skip(n.len() - 19))),
        symbol_parts(Some(n)).0.len() == n.len() - 19,
        symbol_parts(Some(n)).1->0.len() == 19,
        symbol_parts(Some(n)).0 + symbol_parts(Some(n)).1->0 == n,
{
    let t = n.subrange(n.len() - 19, n.len() - 16);
    assert(t[0] == n[n.len() - 19] && t[1] == n[n.len() - 18] && t[2] == n[n.len() - 17]);
    assert(n.take(n.len() - 19) + n.skip(n.len() - 19) =~= n);
}

/// A name without a compiler hash is shown whole, with no suffix.
pub proof fn no_hash_suffix_whole(n: Seq<char>)
    requires
        !has_hash_suffix(n),
    ensures
        symbol_parts(Some(n)) == (n, None::<Seq<char>>),
{
}

fn all_hex(t: &Vec<char>, lo: usize, hi: usize) -> (r: bool)
    requires
        lo <= hi <= t@.len(),
    ensures
        r == forall|i: int| lo <= i < hi ==> is_hex_digit(#[trigger] t@[i]),
{
    let mut i = lo;
    while i < hi
        invariant
            lo <= i <= hi <= t@.len(),
            forall|k: int| lo <= k < i ==> is_hex_digit(#[trigger] t@[k]),
        decreases hi - i,
    {
        if !is_hex_digit_char(t[i]) {
            return false;
        }
        i = i + 1;
    }
    true
}

impl Frame {
    /// Creates a frame from its index, symbol name and location.
    pub fn new(index: usize, name: Option<String>, location: Option<Location>) -> (r: Frame)
        ensures
            r.index == index,
            r.name == name,
            r.location == location,
    {
        Frame { index, name, location }
    }

    /// Frame index.
    pub fn index(&self) -> (r: usize)
        ensures
            r == self.index,
    {
        self.index
    }

    /// Frame symbol name.
    pub fn name(&self) -> (r: Option<&str>)
        ensures
            opt_str_view(r) == self@.name,
    {
        match &self.name {
            Some(n) => Some(n.as_str()),
            None => None,
        }
    }

    /// Frame location.
    pub fn location(&self) -> (r: Option<&Location>)
        ensures
            match r {
                Some(l) => self.location == Some(*l),
                None => self.location is None,
            },
    {
        match &self.location {
            Some(l) => Some(l),
            None => None,
        }
    }

    /// Splits the symbol name into the part shown as the symbol and its
    /// compiler hash suffix; a frame without a name shows [`UNKNOWN`].
    pub fn symbolify(&self) -> (r: (&str, Option<&str>))
        ensures
            (r.0@, opt_str_view(r.1)) == symbol_parts(self@.name),
    {
        match &self.name {
            None => (UNKNOWN, None),
            Some(n) => {
                let s = n.as_str();
                let t = to_chars(s);
                let len = t.len();
                if len > 19 && t[len - 19] == ':' && t[len - 18] == ':' && t[len - 17] == 'h'
                    && all_hex(&t, len - 16, len) {
                    let base = s.substring_char(0, len - 19);
                    let hash = s.substring_char(len - 19, len);
                    assert(base@ == s@.take(len - 19));
                    assert(hash@ =~= s@.skip(len - 19));
                    (base, Some(hash))
                } else {
                    (s, None)
                }
            },
        }
    }
}

} // verus!
