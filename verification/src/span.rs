//! Source positions, spans and span-tagged values.

use vstd::prelude::*;

verus! {

/// A position in source text: byte offset, line and column.
#[derive(Clone, Copy, Debug, PartialEq, Eq, Structural, Hash)]
pub struct Loc {
    pub pos: usize,
    pub line: usize,
    pub col: usize,
}

impl Loc {
    /// Positions are ordered by byte offset, then line, then column.
    pub open spec fn at_or_before(self, other: Loc) -> bool {
        self.pos < other.pos || (self.pos == other.pos && (self.line < other.line || (self.line
            == other.line && self.col <= other.col)))
    }

    /// The earlier of two positions.
    pub open spec fn earliest(self, other: Loc) -> Loc {
        if self.at_or_before(other) {
            self
        } else {
            other
        }
    }

    /// The later of two positions.
    pub open spec fn latest(self, other: Loc) -> Loc {
        if self.at_or_before(other) {
            other
        } else {
            self
        }
    }

    /// Whether `self` lies at or before `other`.
    pub fn le(self, other: Loc) -> (r: bool)
        ensures
            r == self.at_or_before(other),
    {
        self.pos < other.pos || (self.pos == other.pos && (self.line < other.line || (self.line
            == other.line && self.col <= other.col)))
    }
}

/// A half-open range `[start, end)` of source text.
#[derive(Clone, Copy, Debug, PartialEq, Eq, Structural, Hash)]
pub struct Span {
    pub start: Loc,
    pub end: Loc,
}

impl Span {
    /// The smallest span that covers both `self` and `other`.
    pub open spec fn merged(self, other: Span) -> Span {
        Span { start: self.start.earliest(other.start), end: self.end.latest(other.end) }
    }

    /// The empty span that sits at the end of `self`.
    pub open spec fn end_point(self) -> Span {
        Span { start: self.end, end: self.end }
    }

    /// Whether `self` lies inside `other`.
    pub open spec fn within(self, other: Span) -> bool {
        other.start.at_or_before(self.start) && self.end.at_or_before(other.end)
    }

    /// Whether `self` lies inside `other` and is not all of it.
    pub open spec fn strictly_within(self, other: Span) -> bool {
        self.within(other) && self != other
    }

    /// Joins two spans: the earliest start and the latest end of the two.
    pub fn merge(self, other: Span) -> (r: Span)
        ensures
            r == self.merged(other),
    {
        let start = if self.start.le(other.start) {
            self.start
        } else {
            other.start
        };
        let end = if self.end.le(other.end) {
            other.end
        } else {
            self.end
        };
        Span { start, end }
    }

    /// Tags `value` with this span.
    pub fn sp<T>(self, value: T) -> (r: Sp<T>)
        ensures
            r == (Sp { value, span: self }),
    {
        Sp { value, span: self }
    }
}

/// A value together with the span of source text it came from.
#[derive(Debug, PartialEq, Eq)]
pub struct Sp<T> {
    pub value: T,
    pub span: Span,
}

impl<T: Clone> Clone for Sp<T> {
    fn clone(&self) -> (r: Sp<T>)
        ensures
            cloned(self.value, r.value),
            r.span == self.span,
    {
        Sp { value: self.value.clone(), span: self.span }
    }
}

impl<T: View> View for Sp<T> {
    type V = Sp<T::V>;

    open spec fn view(&self) -> Sp<T::V> {
        Sp { value: self.value@, span: self.span }
    }
}

impl<T> Sp<T> {
    /// Replaces the value and keeps the span.
    pub fn map<U, F: FnOnce(T) -> U>(self, f: F) -> (r: Sp<U>)
        requires
            f.requires((self.value,)),
        ensures
            f.ensures((self.value,), r.value),
            r.span == self.span,
    {
        Sp { value: f(self.value), span: self.span }
    }

    /// Keeps the value and widens the span to cover `other` as well.
    pub fn extend(self, other: Span) -> (r: Sp<T>)
        ensures
            r == (Sp { value: self.value, span: self.span.merged(other) }),
    {
        Sp { value: self.value, span: self.span.merge(other) }
    }
}

} // verus!
