//! Indents every non-empty line of text written through it.
use vstd::prelude::*;

use crate::text::{push_char, to_chars};

verus! {

/// Whether the next character starts a line, once `s` has been written in
/// state `start`.
pub open spec fn at_line_start(s: Seq<char>, start: bool) -> bool {
    if s.len() == 0 {
        start
    } else {
        s.last() == '\n'
    }
}

/// What writing `s` in state `start` produces: each character that begins a
/// non-empty line is preceded by the indentation.
pub open spec fn indented_text(s: Seq<char>, start: bool, indentation: Seq<char>) -> Seq<char>
    decreases s.len(),
{
    if s.len() == 0 {
        Seq::empty()
    } else {
        let prev = s.drop_last();
        indented_text(prev, start, indentation) + if s.last() == '\n' {
            seq!['\n']
        } else if at_line_start(prev, start) {
            indentation.push(s.last())
        } else {
            seq![s.last()]
        }
    }
}

/// A writer that indents the lines it is given; it remembers across writes
/// whether it stands at the start of a line.
pub struct Indent {
    pub indentation: String,
    pub requires: bool,
}

impl Indent {
    pub fn new(indentation: &str) -> (r: Indent)
        ensures
            r.indentation@ == indentation@,
            r.requires,
    {
        Indent { indentation: String::from_str(indentation), requires: true }
    }

    /// An indentation of two spaces.
    pub fn double() -> (r: Indent)
        ensures
            r.indentation@ == "  "@,
            r.requires,
    {
        Indent::new("  ")
    }

    /// Writes `s` to `out`, indenting each non-empty line that starts in it.
    pub fn write_str(&mut self, out: &mut String, s: &str)
        ensures
            final(out)@ == old(out)@ + indented_text(s@, old(self).requires, old(self).indentation@),
            final(self).requires == at_line_start(s@, old(self).requires),
            final(self).indentation == old(self).indentation,
    {
        let t = to_chars(s);
        let ghost start = self.requires;
        let ghost base = out@;
        let mut i: usize = 0;
        assert(t@.take(0) =~= Seq::<char>::empty());
        while i < t.len()
            invariant
                i <= t@.len(),
                t@ == s@,
                self.indentation == old(self).indentation,
                self.requires == at_line_start(t@.take(i as int), start),
                out@ == base + indented_text(t@.take(i as int), start, self.indentation@),
            decreases t@.len() - i,
        {
            let c = t[i];
            proof {
                let p = t@.take(i + 1);
                assert(p.drop_last() =~= t@.take(i as int));
                assert(p.last() == c);
            }
            if c == '\n' {
                push_char(out, c);
                self.requires = true;
            } else {
                if self.requires {
                    out.append(self.indentation.as_str());
                    self.requires = false;
                }
                push_char(out, c);
            }
            i = i + 1;
            assert(out@ =~= base + indented_text(t@.take(i as int), start, self.indentation@));
        }
        assert(t@.take(t@.len() as int) =~= t@);
    }
}

} // verus!
