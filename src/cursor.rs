use vstd::prelude::*;
use vstd::string::StringExecFns;
use crate::text::{debug_quoted, debug_text, decimal, push_decimal, string_of};

verus! {

/// A position in a borrowed sequence of scalar values.
///
/// A cursor is a cheap copyable value: copying it is how a parse stream
/// snapshots and restores its position.
#[derive(Copy, Clone)]
pub struct Cursor<'a> {
    slice: &'a [char],
    index: usize,
}

/// The cursor `b` was reached from `a` by moving forward over the same input.
pub open spec fn forward<'a>(a: Cursor<'a>, b: Cursor<'a>) -> bool {
    &&& b.input() == a.input()
    &&& a.pos() <= b.pos() <= b.input().len()
}

/// Position monotonicity: along any run of cursor operations that move
/// forward (`consume`, `advance`, `advance_n`, `advance_while`; the peeks move
/// nothing), each step being `forward` from the one before, every later
/// position is at least every earlier one and never passes the end of input.
pub proof fn lemma_forward_trace<'a>(trace: Seq<Cursor<'a>>)
    requires
        trace.len() > 0,
        trace[0].wf(),
        forall|k: int| 0 <= k < trace.len() - 1 ==> forward(#[trigger] trace[k], trace[k + 1]),
    ensures
        forall|i: int, j: int|
            0 <= i <= j < trace.len() ==> forward(#[trigger] trace[i], #[trigger] trace[j]),
    decreases trace.len(),
{
    if trace.len() > 1 {
        let prefix = trace.subrange(0, trace.len() - 1);
        assert forall|k: int| 0 <= k < prefix.len() - 1 implies forward(
            #[trigger] prefix[k],
            prefix[k + 1],
        ) by {
            assert(prefix[k] == trace[k] && prefix[k + 1] == trace[k + 1]);
        }
        lemma_forward_trace(prefix);
        let last = trace.len() - 1;
        assert forall|i: int, j: int| 0 <= i <= j < trace.len() implies forward(
            #[trigger] trace[i],
            #[trigger] trace[j],
        ) by {
            if j < last {
                assert(prefix[i] == trace[i] && prefix[j] == trace[j]);
            } else {
                assert(forward(trace[last - 1], trace[last]));
                if i < last {
                    assert(prefix[i] == trace[i] && prefix[last - 1] == trace[last - 1]);
                    assert(forward(prefix[i], prefix[last - 1]));
                }
            }
        }
    }
}

impl<'a> Cursor<'a> {
    /// The input the cursor reads.
    pub closed spec fn input(&self) -> Seq<char> {
        self.slice@
    }

    /// The current offset into the input.
    pub closed spec fn pos(&self) -> int {
        self.index as int
    }

    /// The offset is a machine-sized index.
    pub proof fn lemma_pos_fits(&self)
        ensures
            0 <= self.pos() <= usize::MAX,
    {
    }

    /// The offset never passes the end of the input.
    pub open spec fn wf(&self) -> bool {
        0 <= self.pos() <= self.input().len()
    }

    /// What is left to read.
    pub open spec fn rest(&self) -> Seq<char> {
        self.input().subrange(self.pos(), self.input().len() as int)
    }

    /// Moves the position to `index`, forward or back.
    pub(crate) fn jump(&mut self, index: usize)
        requires
            index <= old(self).input().len(),
        ensures
            final(self).input() == old(self).input(),
            final(self).pos() == index,
    {
        self.index = index;
    }

    pub fn new(slice: &'a [char]) -> (r: Cursor<'a>)
        ensures
            r.input() == slice@,
            r.pos() == 0,
            r.wf(),
    {
        Cursor { slice, index: 0 }
    }

    pub fn is_empty(&self) -> (r: bool)
        requires
            self.wf(),
        ensures
            r == (self.pos() == self.input().len()),
    {
        self.index >= self.slice.len()
    }

    /// The scalar value at the current position, without advancing.
    pub fn peek0(&self) -> (r: Option<char>)
        requires
            self.wf(),
        ensures
            r == (if self.pos() < self.input().len() {
                Some(self.input()[self.pos()])
            } else {
                None
            }),
    {
        if self.index < self.slice.len() {
            Some(self.slice[self.index])
        } else {
            None
        }
    }

    /// The next `n` scalar values, without advancing; `None` when fewer remain.
    pub fn peek_n(&self, n: usize) -> (r: Option<&'a [char]>)
        requires
            self.wf(),
        ensures
            match r {
                Some(s) => self.pos() + n <= self.input().len() && s@ == self.input().subrange(
                    self.pos(),
                    self.pos() + n,
                ),
                None => self.pos() + n > self.input().len(),
            },
    {
        if n <= self.slice.len() - self.index {
            Some(vstd::slice::slice_subrange(self.slice, self.index, self.index + n))
        } else {
            None
        }
    }

    /// The next `n` scalar values, without advancing; `None` when fewer
    /// remain. The same as `peek_n`.
    pub fn peek_range(&self, n: usize) -> (r: Option<&'a [char]>)
        requires
            self.wf(),
        ensures
            match r {
                Some(s) => self.pos() + n <= self.input().len() && s@ == self.input().subrange(
                    self.pos(),
                    self.pos() + n,
                ),
                None => self.pos() + n > self.input().len(),
            },
    {
        self.peek_n(n)
    }

    /// Advances over one value if it equals `target`.
    pub fn consume(&mut self, target: char) -> (r: bool)
        requires
            old(self).wf(),
        ensures
            forward(*old(self), *final(self)),
            r == (old(self).pos() < old(self).input().len() && old(self).input()[old(self).pos()]
                == target),
            final(self).pos() == old(self).pos() + if r {
                1int
            } else {
                0int
            },
    {
        if self.index < self.slice.len() && self.slice[self.index] == target {
            self.index = self.index + 1;
            true
        } else {
            false
        }
    }

    /// Advances over one value and returns it; `None` at the end of input.
    pub fn advance(&mut self) -> (r: Option<char>)
        requires
            old(self).wf(),
        ensures
            forward(*old(self), *final(self)),
            r == (if old(self).pos() < old(self).input().len() {
                Some(old(self).input()[old(self).pos()])
            } else {
                None
            }),
            final(self).pos() == old(self).pos() + if r is Some {
                1int
            } else {
                0int
            },
    {
        if self.index < self.slice.len() {
            let c = self.slice[self.index];
            self.index = self.index + 1;
            Some(c)
        } else {
            None
        }
    }

    /// Advances over exactly `n` values and returns them, or leaves the
    /// cursor where it is and returns `None` when fewer remain.
    pub fn advance_n(&mut self, n: usize) -> (r: Option<&'a [char]>)
        requires
            old(self).wf(),
        ensures
            forward(*old(self), *final(self)),
            match r {
                Some(s) => {
                    &&& old(self).pos() + n <= old(self).input().len()
                    &&& s@ == old(self).input().subrange(old(self).pos(), old(self).pos() + n)
                    &&& final(self).pos() == old(self).pos() + n
                },
                None => {
                    &&& old(self).pos() + n > old(self).input().len()
                    &&& final(self).pos() == old(self).pos()
                },
            },
    {
        if n <= self.slice.len() - self.index {
            let s = vstd::slice::slice_subrange(self.slice, self.index, self.index + n);
            self.index = self.index + n;
            Some(s)
        } else {
            None
        }
    }

    /// Advances while `pred` holds of the next value and returns what was
    /// passed over. Stops at the end of input or before the first value that
    /// `pred` rejects.
    pub fn advance_while(&mut self, pred: impl Fn(char) -> bool) -> (r: &'a [char])
        requires
            old(self).wf(),
            forall|c: char| pred.requires((c,)),
        ensures
            forward(*old(self), *final(self)),
            r@ == old(self).input().subrange(old(self).pos(), final(self).pos()),
            forall|i: int|
                old(self).pos() <= i < final(self).pos() ==> pred.ensures(
                    (#[trigger] old(self).input()[i],),
                    true,
                ),
            final(self).pos() < old(self).input().len() ==> pred.ensures(
                (old(self).input()[final(self).pos()],),
                false,
            ),
            // a predicate that rejects the first value moves nothing
            ({
                let c = *old(self);
                (c.pos() < c.input().len() && forall|b: bool|
                    pred.ensures((c.input()[c.pos()],), b) ==> !b)
                    ==> (final(self).pos() == c.pos() && r@.len() == 0)
            }),
    {
        let begin = self.index;
        loop
            invariant
                self.slice == old(self).slice,
                begin == old(self).index,
                begin <= self.index <= self.slice@.len(),
                forall|c: char| pred.requires((c,)),
                forall|i: int|
                    begin <= i < self.index ==> pred.ensures((#[trigger] self.slice@[i],), true),
            ensures
                begin <= self.index <= self.slice@.len(),
                self.index < self.slice@.len() ==> pred.ensures(
                    (self.slice@[self.index as int],),
                    false,
                ),
            decreases self.slice@.len() - self.index,
        {
            if self.index >= self.slice.len() {
                break;
            }
            let c = self.slice[self.index];
            if !pred(c) {
                break;
            }
            self.index = self.index + 1;
        }
        proof {
            if self.index > begin {
                assert(pred.ensures((self.slice@[begin as int],), true));
            }
        }
        vstd::slice::slice_subrange(self.slice, begin, self.index)
    }

    /// A description for debugging: the start of what is left to read.
    pub fn debug_string(&self) -> (r: String)
        requires
            self.wf(),
        ensures
            r@ == cursor_debug(self.rest()),
    {
        let rest = vstd::slice::slice_subrange(self.slice, self.index, self.slice.len());
        let n = rest.len();
        let mut out = String::new();
        out.append("Cursor(");
        if n > 16 {
            let head = string_of(vstd::slice::slice_subrange(rest, 0, 16));
            out.append(debug_quoted(head.as_str()).as_str());
            out.append(" and ");
            push_decimal(&mut out, (n - 16) as u64);
            out.append(" more..");
        } else {
            let all = string_of(rest);
            out.append(debug_quoted(all.as_str()).as_str());
        }
        out.append(")");
        out
    }

    /// The current offset.
    pub fn index(&self) -> (r: usize)
        ensures
            r == self.pos(),
    {
        self.index
    }

    /// Reads the remaining values one by one without moving the cursor.
    pub fn iter<'c>(&'c self) -> (r: Iter<'a, 'c>)
        ensures
            r.cursor() == *self,
            r.offset() == 0,
    {
        Iter(0, self)
    }
}

/// How a cursor with `rest` left to read is shown: at most sixteen values,
/// then how many more there are.
pub open spec fn cursor_debug(rest: Seq<char>) -> Seq<char> {
    let shown = if rest.len() > 16 {
        debug_text(rest.subrange(0, 16)) + " and "@ + decimal((rest.len() - 16) as nat) + " more.."@
    } else {
        debug_text(rest)
    };
    "Cursor("@ + shown + ")"@
}

/// Walks the values after a cursor's position without advancing the cursor.
pub struct Iter<'a, 'b>(usize, &'b Cursor<'a>);

impl<'a, 'b> Iter<'a, 'b> {
    /// The cursor being read.
    pub closed spec fn cursor(&self) -> Cursor<'a> {
        *self.1
    }

    /// How many values after the cursor's position have been handed out.
    pub closed spec fn offset(&self) -> int {
        self.0 as int
    }

    /// The value `offset` places after the cursor's position, if any.
    pub fn next(&mut self) -> (r: Option<char>)
        requires
            old(self).cursor().wf(),
        ensures
            final(self).cursor() == old(self).cursor(),
            ({
                let c = old(self).cursor();
                let at = c.pos() + old(self).offset();
                if at < c.input().len() {
                    r == Some(c.input()[at]) && final(self).offset() == old(self).offset() + 1
                } else {
                    r is None && final(self).offset() == old(self).offset()
                }
            }),
    {
        let c = self.1;
        if self.0 < c.slice.len() - c.index {
            let ch = c.slice[c.index + self.0];
            self.0 = self.0 + 1;
            Some(ch)
        } else {
            None
        }
    }
}

} // verus!
