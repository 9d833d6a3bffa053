//! Source positions: spans of byte offsets and file identifiers.

use vstd::prelude::*;

verus! {

/// A half-open range of byte offsets within one source file.
#[derive(Clone, Copy, PartialEq, Eq, Structural, Debug)]
pub struct Span {
    pub start: u32,
    pub end: u32,
}

impl Span {
    /// Number of bytes the span covers (negative spans never arise from
    /// `new`, but the size is computed signed so no caller needs to prove
    /// `start <= end`).
    pub open spec fn spec_size(self) -> int {
        self.end - self.start
    }

    pub open spec fn spec_contains(self, other: Span) -> bool {
        self.start <= other.start && self.end >= other.end
    }

    pub fn new(start: u32, end: u32) -> (r: Span)
        ensures
            r == (Span { start, end }),
    {
        Span { start, end }
    }

    /// True when `other` lies entirely within this span.
    pub fn contains(&self, other: &Span) -> (r: bool)
        ensures
            r == self.spec_contains(*other),
    {
        self.start <= other.start && self.end >= other.end
    }

    /// True when this span covers strictly fewer bytes than `other`.
    pub fn is_smaller(&self, other: &Span) -> (r: bool)
        ensures
            r == (self.spec_size() < other.spec_size()),
    {
        (self.end as i64 - self.start as i64) < (other.end as i64 - other.start as i64)
    }
}

/// An opaque identifier for a source file.
#[derive(Clone, Copy, PartialEq, Eq, Structural, Debug)]
pub struct FileId(pub u32);

impl FileId {
    pub fn dummy() -> (r: FileId)
        ensures
            r == (FileId(u32::MAX)),
    {
        FileId(u32::MAX)
    }
}

/// A span together with the file it belongs to.
#[derive(Clone, Copy, PartialEq, Eq, Structural, Debug)]
pub struct Location {
    pub span: Span,
    pub file: FileId,
}

impl Location {
    pub open spec fn spec_contains(self, other: Location) -> bool {
        self.file == other.file && self.span.spec_contains(other.span)
    }

    pub fn new(span: Span, file: FileId) -> (r: Location)
        ensures
            r == (Location { span, file }),
    {
        Location { span, file }
    }

    /// True when `other` points into the same file and within this span.
    pub fn contains(&self, other: &Location) -> (r: bool)
        ensures
            r == self.spec_contains(*other),
    {
        self.file == other.file && self.span.contains(&other.span)
    }

    /// A placeholder location for generated items.
    pub fn dummy() -> (r: Location)
        ensures
            r == (Location { span: Span { start: 0, end: 0 }, file: FileId(u32::MAX) }),
    {
        Location { span: Span { start: 0, end: 0 }, file: FileId(u32::MAX) }
    }
}

} // verus!
