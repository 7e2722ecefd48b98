use vstd::prelude::*;

verus! {

/// Filename and line corresponding to source file.
#[derive(Debug, Clone, PartialEq, Eq)]
pub struct Location {
    pub file: String,
    pub line: u32,
}

/// What a [`Location`] holds, as plain values.
pub struct LocationView {
    pub file: Seq<char>,
    pub line: u32,
}

impl View for Location {
    type V = LocationView;

    open spec fn view(&self) -> LocationView {
        LocationView { file: self.file@, line: self.line }
    }
}

impl Location {
    /// Creates a location from a file name and a line number.
    pub fn new(file: String, line: u32) -> (r: Location)
        ensures
            r.file@ == file@,
            r.line == line,
    {
        Location { file, line }
    }

    /// Gets source file filename.
    pub fn file(&self) -> (r: &str)
        ensures
            r@ == self.file@,
    {
        self.file.as_str()
    }

    /// Gets line number.
    pub fn line(&self) -> (r: u32)
        ensures
            r == self.line,
    {
        self.line
    }
}

} // verus!
