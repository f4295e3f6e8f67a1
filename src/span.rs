use vstd::prelude::*;

verus! {

/// A half-open range `[begin, end)` of scalar-value offsets: the input consumed
/// while producing one grammar entity.
#[derive(Debug, Default, PartialEq, Eq, Structural, Hash, Copy, Clone)]
pub struct Span {
    pub begin: usize,
    pub end: usize,
}

impl Span {
    /// `begin <= end`: the range is not reversed.
    pub open spec fn wf(&self) -> bool {
        self.begin <= self.end
    }

    /// Number of scalar values the span covers.
    pub open spec fn len(&self) -> int {
        self.end - self.begin
    }
}

/// A grammar entity that records the range of input it was parsed from.
pub trait Spanned {
    fn span(&self) -> Span;

    fn span_ref_mut(&mut self) -> &mut Span;
}

/// A saved stream position, for range capture without the span stack.
#[derive(Debug, PartialEq, Eq, Structural, Copy, Clone)]
pub struct Snapshot(pub usize);

impl Snapshot {
    pub fn index(&self) -> (r: usize)
        ensures
            r == self.0,
    {
        self.0
    }
}

impl From<usize> for Snapshot {
    fn from(index: usize) -> (r: Snapshot)
        ensures
            r.0 == index,
    {
        Snapshot(index)
    }
}

impl vstd::std_specs::convert::FromSpecImpl<usize> for Snapshot {
    open spec fn obeys_from_spec() -> bool {
        true
    }

    open spec fn from_spec(v: usize) -> Snapshot {
        Snapshot(v)
    }
}

impl From<Snapshot> for usize {
    fn from(snap: Snapshot) -> (r: usize)
        ensures
            r == snap.0,
    {
        snap.0
    }
}

impl vstd::std_specs::convert::FromSpecImpl<Snapshot> for usize {
    open spec fn obeys_from_spec() -> bool {
        true
    }

    open spec fn from_spec(v: Snapshot) -> usize {
        v.0
    }
}

} // verus!
