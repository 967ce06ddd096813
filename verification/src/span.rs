//! Positions in source text.

use vstd::prelude::*;

verus! {

/// Where a piece of source text stands: the file that holds it and its line
/// in that file.
#[derive(Debug, PartialEq, Eq)]
pub struct Span {
    pub file: String,
    pub line: u32,
}

/// What a [`Span`] means in contracts.
pub struct SpanView {
    pub file: Seq<char>,
    pub line: u32,
}

impl View for Span {
    type V = SpanView;

    open spec fn view(&self) -> SpanView {
        SpanView { file: self.file@, line: self.line }
    }
}

impl Span {
    /// The position `line` of `file`.
    pub fn new(file: &str, line: u32) -> (r: Span)
        ensures
            r@ == (SpanView { file: file@, line }),
    {
        Span { file: String::from_str(file), line }
    }
}

impl Clone for Span {
    fn clone(&self) -> (r: Span)
        ensures
            r@ == self@,
    {
        Span { file: self.file.clone(), line: self.line }
    }
}

} // verus!
