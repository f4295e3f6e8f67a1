use vstd::prelude::*;
use crate::cursor::{Cursor, forward};
use crate::span::{Span, Snapshot};
use crate::unicode::{is_whitespace, whitespace};
use crate::text::{chars_of, string_of};

verus! {

/// Why a parse attempt failed: a message of the form "expected X".
pub type ParseError = &'static str;

pub type Result<T> = core::result::Result<T, ParseError>;

/// Every value of `s` is white space.
pub open spec fn all_whitespace(s: Seq<char>) -> bool {
    forall|i: int| 0 <= i < s.len() ==> whitespace(#[trigger] s[i])
}

/// `b` was reached from `a` by consuming input: same input, same span
/// stack, and a position that did not move back.
pub open spec fn stepped<'a>(a: ParseStream<'a>, b: ParseStream<'a>) -> bool {
    &&& b.wf()
    &&& b.input() == a.input()
    &&& b.frames() == a.frames()
    &&& a.pos() <= b.pos()
}

/// `b` holds the same input as `a`, and the span stack of `a` lies at the
/// bottom of that of `b`, possibly under spans that were left open.
pub open spec fn keeps_frames<'a>(a: ParseStream<'a>, b: ParseStream<'a>) -> bool {
    &&& b.wf()
    &&& b.input() == a.input()
    &&& a.frames().len() <= b.frames().len()
    &&& b.frames().subrange(0, a.frames().len() as int) == a.frames()
}

/// The stream states `a` and `b` are indistinguishable.
pub open spec fn same_state<'a>(a: ParseStream<'a>, b: ParseStream<'a>) -> bool {
    &&& b.input() == a.input()
    &&& b.pos() == a.pos()
    &&& b.frames() == a.frames()
}

/// The span of the input consumed between stream states `a` and `b`.
pub open spec fn span_between<'a>(a: ParseStream<'a>, b: ParseStream<'a>) -> Span {
    Span { begin: a.pos() as usize, end: b.pos() as usize }
}

/// Span correctness: an entity parsed from state `s0` to state `s1` has a
/// span whose length is the number of values it consumed, and a sibling
/// parsed right after it, from `s1` to `s2`, begins where it ended.
pub proof fn lemma_sibling_spans<'a>(s0: ParseStream<'a>, s1: ParseStream<'a>, s2: ParseStream<'a>)
    requires
        s0.wf(),
        stepped(s0, s1),
        stepped(s1, s2),
    ensures
        span_between(s0, s1).wf(),
        span_between(s0, s1).len() == s1.input().subrange(s0.pos(), s1.pos()).len(),
        span_between(s1, s2).begin == span_between(s0, s1).end,
        span_between(s1, s2).len() == s2.input().subrange(s1.pos(), s2.pos()).len(),
{
    s0.cursor().lemma_pos_fits();
    s1.cursor().lemma_pos_fits();
    s2.cursor().lemma_pos_fits();
}

/// The capability a grammar entity implements to be parsed from a stream.
///
/// A successful parse consumes the entity's input and closes every span it
/// opened; a failed one leaves the stream as it found it.
pub trait Parse: Sized {
    fn parse(stream: &mut ParseStream) -> (r: Result<Self>)
        requires
            old(stream).wf(),
        ensures
            stepped(*old(stream), *final(stream)),
            r is Err ==> same_state(*old(stream), *final(stream)),
    ;
}

/// A cursor over the input together with the stack of spans in flight.
///
/// The stack holds the begin offset of each open span; the end of every open
/// span is the stream's current position, so it follows each advance.
pub struct ParseStream<'a> {
    cursor: Cursor<'a>,
    spans: Vec<usize>,
}

/// The handle of one open span: its place in the span stack.
pub struct SpanGuard {
    depth: usize,
}

impl SpanGuard {
    /// The place in the span stack that the guard closes.
    pub closed spec fn depth(&self) -> int {
        self.depth as int
    }

    pub fn new(depth: usize) -> (r: SpanGuard)
        ensures
            r.depth() == depth,
    {
        SpanGuard { depth }
    }

    /// Closes the span: pops it off the top of the stack and returns it, its
    /// end being the current position.
    pub fn into_inner(self, stream: &mut ParseStream) -> (r: Span)
        requires
            old(stream).wf(),
            self.depth() + 1 == old(stream).depth(),
        ensures
            final(stream).wf(),
            final(stream).cursor() == old(stream).cursor(),
            final(stream).frames() == old(stream).frames().drop_last(),
            r == old(stream).spans()[self.depth()],
            r.begin == old(stream).frames().last(),
            r.end == old(stream).pos(),
            r.wf(),
    {
        let begin = match stream.spans.pop() {
            Some(b) => b,
            None => 0,
        };
        Span { begin, end: stream.cursor.index() }
    }
}

impl<'a> ParseStream<'a> {
    pub closed spec fn cursor(&self) -> Cursor<'a> {
        self.cursor
    }

    /// The begin offsets of the open spans, outermost first.
    pub closed spec fn frames(&self) -> Seq<usize> {
        self.spans@
    }

    pub open spec fn input(&self) -> Seq<char> {
        self.cursor().input()
    }

    pub open spec fn pos(&self) -> int {
        self.cursor().pos()
    }

    pub open spec fn rest(&self) -> Seq<char> {
        self.cursor().rest()
    }

    /// Number of spans in flight.
    pub open spec fn depth(&self) -> int {
        self.frames().len() as int
    }

    /// The open spans, each ending at the current position.
    pub open spec fn spans(&self) -> Seq<Span> {
        self.frames().map_values(|b: usize| Span { begin: b, end: self.pos() as usize })
    }

    /// The cursor lies within the input, and no open span begins after it.
    pub open spec fn wf(&self) -> bool {
        &&& self.cursor().wf()
        &&& forall|i: int| 0 <= i < self.depth() ==> #[trigger] self.frames()[i] <= self.pos()
    }

    pub fn new(slice: &'a [char]) -> (r: ParseStream<'a>)
        ensures
            r.wf(),
            r.input() == slice@,
            r.pos() == 0,
            r.depth() == 0,
    {
        ParseStream { cursor: Cursor::new(slice), spans: Vec::new() }
    }

    /// A stream over no input.
    pub fn empty() -> (r: ParseStream<'a>)
        ensures
            r.wf(),
            r.input().len() == 0,
            r.pos() == 0,
            r.depth() == 0,
    {
        ParseStream { cursor: Cursor::new(&[]), spans: Vec::new() }
    }

    /// Parses one `P` here: the result is what `P::parse` returns on this
    /// stream.
    pub fn parse<P: Parse>(&mut self) -> (r: Result<P>)
        requires
            old(self).wf(),
        ensures
            stepped(*old(self), *final(self)),
            r is Err ==> same_state(*old(self), *final(self)),
            exists|m: &mut ParseStream<'a>|
                *m == *old(self) && #[trigger] call_ensures(P::parse, (m,), r) && *final(self)
                    == *final(m),
    {
        P::parse(self)
    }

    /// Moving the cursor forward keeps a stream well formed.
    pub proof fn lemma_forward_wf(a: ParseStream<'a>, b: ParseStream<'a>)
        requires
            a.wf(),
            forward(a.cursor(), b.cursor()),
            b.frames() == a.frames(),
        ensures
            b.wf(),
            stepped(a, b),
    {
        assert forall|i: int| 0 <= i < b.depth() implies #[trigger] b.frames()[i] <= b.pos() by {
            assert(a.frames()[i] <= a.pos());
        }
    }

    /// The cursor, for reading and advancing it directly.
    pub fn cur(&mut self) -> (r: &mut Cursor<'a>)
        ensures
            *r == old(self).cursor(),
            final(self).cursor() == *final(r),
            final(self).frames() == old(self).frames(),
    {
        &mut self.cursor
    }

    pub fn is_empty(&self) -> (r: bool)
        requires
            self.wf(),
        ensures
            r == (self.pos() == self.input().len()),
    {
        self.cursor.is_empty()
    }

    /// The next value, without advancing.
    pub fn peek(&self) -> (r: Option<char>)
        requires
            self.wf(),
        ensures
            r == (if self.pos() < self.input().len() {
                Some(self.input()[self.pos()])
            } else {
                None
            }),
    {
        self.cursor.peek0()
    }

    /// Advances over one value and returns it; `None` at the end of input.
    pub fn advance(&mut self) -> (r: Option<char>)
        requires
            old(self).wf(),
        ensures
            stepped(*old(self), *final(self)),
            r == (if old(self).pos() < old(self).input().len() {
                Some(old(self).input()[old(self).pos()])
            } else {
                None
            }),
            final(self).pos() == old(self).pos() + if r is Some {
                1int
            } else {
                0int
            },
    {
        let r = self.cursor.advance();
        proof {
            Self::lemma_forward_wf(*old(self), *self);
        }
        r
    }

    /// Advances over the next value if `pred` accepts it, and returns it.
    pub fn advance_if(&mut self, pred: impl FnOnce(char) -> bool) -> (r: Option<char>)
        requires
            old(self).wf(),
            forall|c: char| pred.requires((c,)),
        ensures
            stepped(*old(self), *final(self)),
            old(self).pos() < old(self).input().len() ==> {
                let c = old(self).input()[old(self).pos()];
                &&& pred.ensures((c,), r is Some)
                &&& r is Some ==> r == Some(c) && final(self).pos() == old(self).pos() + 1
                &&& r is None ==> final(self).pos() == old(self).pos()
            },
            old(self).pos() == old(self).input().len() ==> r is None && final(self).pos() == old(
                self,
            ).pos(),
    {
        match self.cursor.peek0() {
            Some(c) => {
                if pred(c) {
                    self.cursor.advance();
                    proof {
                        Self::lemma_forward_wf(*old(self), *self);
                    }
                    Some(c)
                } else {
                    None
                }
            },
            None => None,
        }
    }

    /// Advances over the next value if it is `c`.
    pub fn eats(&mut self, c: char) -> (r: bool)
        requires
            old(self).wf(),
        ensures
            stepped(*old(self), *final(self)),
            r == (old(self).pos() < old(self).input().len() && old(self).input()[old(self).pos()]
                == c),
            final(self).pos() == old(self).pos() + if r {
                1int
            } else {
                0int
            },
    {
        let r = self.cursor.consume(c);
        proof {
            Self::lemma_forward_wf(*old(self), *self);
        }
        r
    }

    /// Advances over the next value if it is one of `chars`.
    pub fn eats_of(&mut self, chars: &[char]) -> (r: bool)
        requires
            old(self).wf(),
        ensures
            stepped(*old(self), *final(self)),
            r == (old(self).pos() < old(self).input().len() && chars@.contains(
                old(self).input()[old(self).pos()],
            )),
            final(self).pos() == old(self).pos() + if r {
                1int
            } else {
                0int
            },
    {
        self.eat_of(chars).is_some()
    }

    /// Advances over the next value if it is one of `chars`, and returns it.
    pub fn eat_of(&mut self, chars: &[char]) -> (r: Option<char>)
        requires
            old(self).wf(),
        ensures
            stepped(*old(self), *final(self)),
            r == (if old(self).pos() < old(self).input().len() && chars@.contains(
                old(self).input()[old(self).pos()],
            ) {
                Some(old(self).input()[old(self).pos()])
            } else {
                None
            }),
            final(self).pos() == old(self).pos() + if r is Some {
                1int
            } else {
                0int
            },
    {
        match self.cursor.peek0() {
            Some(c) => {
                let mut i: usize = 0;
                let mut found = false;
                while i < chars.len() && !found
                    invariant
                        0 <= i <= chars@.len(),
                        found == (i > 0 && chars@[i - 1] == c),
                        forall|j: int| 0 <= j < i - 1 ==> chars@[j] != c,
                        !found ==> forall|j: int| 0 <= j < i ==> chars@[j] != c,
                    decreases chars@.len() - i,
                {
                    found = chars[i] == c;
                    i = i + 1;
                }
                if found {
                    assert(chars@[i - 1] == c);
                    self.cursor.advance();
                    proof {
                        Self::lemma_forward_wf(*old(self), *self);
                    }
                    Some(c)
                } else {
                    None
                }
            },
            None => None,
        }
    }

    /// Advances over a run of values that `pred` accepts; returns whether it
    /// moved at all.
    pub fn skip_all(&mut self, pred: impl Fn(char) -> bool) -> (r: bool)
        requires
            old(self).wf(),
            forall|c: char| pred.requires((c,)),
        ensures
            stepped(*old(self), *final(self)),
            r == (final(self).pos() > old(self).pos()),
            forall|i: int|
                old(self).pos() <= i < final(self).pos() ==> pred.ensures(
                    (#[trigger] old(self).input()[i],),
                    true,
                ),
            final(self).pos() < old(self).input().len() ==> pred.ensures(
                (old(self).input()[final(self).pos()],),
                false,
            ),
    {
        let skipped = self.cursor.advance_while(pred);
        proof {
            Self::lemma_forward_wf(*old(self), *self);
        }
        skipped.len() > 0
    }

    /// Advances while `pred` holds and returns what was passed over, as a
    /// `String`.
    pub fn string_while(&mut self, pred: impl Fn(char) -> bool) -> (r: String)
        requires
            old(self).wf(),
            forall|c: char| pred.requires((c,)),
        ensures
            stepped(*old(self), *final(self)),
            r@ == old(self).input().subrange(old(self).pos(), final(self).pos()),
            forall|i: int|
                old(self).pos() <= i < final(self).pos() ==> pred.ensures(
                    (#[trigger] old(self).input()[i],),
                    true,
                ),
            final(self).pos() < old(self).input().len() ==> pred.ensures(
                (old(self).input()[final(self).pos()],),
                false,
            ),
    {
        let taken = self.cursor.advance_while(pred);
        proof {
            Self::lemma_forward_wf(*old(self), *self);
        }
        string_of(taken)
    }

    /// Whether everything after the position is white space; reads without
    /// consuming.
    pub fn is_only_whitespaces(&self) -> (r: bool)
        requires
            self.wf(),
        ensures
            r == all_whitespace(self.rest()),
    {
        let mut it = self.cursor.iter();
        loop
            invariant
                it.cursor() == self.cursor(),
                self.cursor().wf(),
                0 <= it.offset() <= self.rest().len(),
                forall|i: int| 0 <= i < it.offset() ==> whitespace(#[trigger] self.rest()[i]),
            decreases self.rest().len() - it.offset(),
        {
            let ghost k = it.offset();
            match it.next() {
                Some(c) => {
                    assert(c == self.rest()[k]);
                    if !is_whitespace(c) {
                        return false;
                    }
                },
                None => {
                    return true;
                },
            }
        }
    }

    /// The current position, saved for `since` or `rewind`.
    pub fn snapshot(&self) -> (r: Snapshot)
        ensures
            r.0 == self.pos(),
    {
        Snapshot(self.cursor.index())
    }

    /// The span from a saved position to the current one.
    pub fn since(&self, snapshot: Snapshot) -> (r: Span)
        requires
            snapshot.0 <= self.pos(),
        ensures
            r == (Span { begin: snapshot.0, end: self.pos() as usize }),
            r.begin == snapshot.0 && r.end == self.pos(),
            r.wf(),
            r.len() == self.pos() - snapshot.0,
    {
        Span { begin: snapshot.index(), end: self.cursor.index() }
    }

    /// Moves back to a saved position; no open span may begin after it.
    pub fn rewind(&mut self, snap: Snapshot)
        requires
            old(self).wf(),
            snap.0 <= old(self).pos(),
            forall|i: int| 0 <= i < old(self).depth() ==> #[trigger] old(self).frames()[i] <= snap.0,
        ensures
            final(self).wf(),
            final(self).input() == old(self).input(),
            final(self).frames() == old(self).frames(),
            final(self).pos() == snap.0,
    {
        self.cursor.jump(snap.index());
        proof {
            assert forall|i: int| 0 <= i < self.depth() implies #[trigger] self.frames()[i]
                <= self.pos() by {
                assert(old(self).frames()[i] <= snap.0);
            }
        }
    }

    /// Runs `parse_fn` as one transaction: on success its consumption is kept;
    /// on failure the position and the span stack return to what they were
    /// on entry, and the error is handed on unchanged.
    pub fn try_parse<R>(&mut self, parse_fn: impl FnOnce(&mut ParseStream<'a>) -> Result<R>) -> (r:
        Result<R>)
        requires
            old(self).wf(),
            forall|s: &mut ParseStream<'a>| s.wf() ==> #[trigger] parse_fn.requires((s,)),
            forall|s: &mut ParseStream<'a>, x: Result<R>| #[trigger]
                parse_fn.ensures((s,), x) ==> keeps_frames(*s, *final(s)) && (x is Ok ==> stepped(
                    *s,
                    *final(s),
                )),
        ensures
            stepped(*old(self), *final(self)),
            r is Err ==> same_state(*old(self), *final(self)),
            exists|m: &mut ParseStream<'a>|
                *m == *old(self) && #[trigger] parse_fn.ensures((m,), r) && (r is Ok ==> *final(self)
                    == *final(m)),
    {
        let saved = self.cursor;
        let depth = self.spans.len();
        match parse_fn(self) {
            Ok(v) => Ok(v),
            Err(e) => {
                self.cursor = saved;
                self.spans.truncate(depth);
                Err(e)
            },
        }
    }

    /// Runs `parse_fn` as a virtual parse: its consumption becomes real only
    /// if it succeeds; on failure the position and the span stack are put
    /// back. Behaves as `try_parse`.
    pub fn virtual_parse<R>(&mut self, parse_fn: impl FnOnce(&mut ParseStream<'a>) -> Result<R>) -> (r:
        Result<R>)
        requires
            old(self).wf(),
            forall|s: &mut ParseStream<'a>| s.wf() ==> #[trigger] parse_fn.requires((s,)),
            forall|s: &mut ParseStream<'a>, x: Result<R>| #[trigger]
                parse_fn.ensures((s,), x) ==> keeps_frames(*s, *final(s)) && (x is Ok ==> stepped(
                    *s,
                    *final(s),
                )),
        ensures
            stepped(*old(self), *final(self)),
            r is Err ==> same_state(*old(self), *final(self)),
            exists|m: &mut ParseStream<'a>|
                *m == *old(self) && #[trigger] parse_fn.ensures((m,), r) && (r is Ok ==> *final(self)
                    == *final(m)),
    {
        self.try_parse(parse_fn)
    }

    /// Runs `fun` and rewinds the stream to where it was if `fun` fails,
    /// handing the error on. Behaves as `try_parse`.
    pub fn rewinds<R>(&mut self, fun: impl FnOnce(&mut ParseStream<'a>) -> Result<R>) -> (r: Result<R>)
        requires
            old(self).wf(),
            forall|s: &mut ParseStream<'a>| s.wf() ==> #[trigger] fun.requires((s,)),
            forall|s: &mut ParseStream<'a>, x: Result<R>| #[trigger]
                fun.ensures((s,), x) ==> keeps_frames(*s, *final(s)) && (x is Ok ==> stepped(
                    *s,
                    *final(s),
                )),
        ensures
            stepped(*old(self), *final(self)),
            r is Err ==> same_state(*old(self), *final(self)),
            exists|m: &mut ParseStream<'a>|
                *m == *old(self) && #[trigger] fun.ensures((m,), r) && (r is Ok ==> *final(self)
                    == *final(m)),
    {
        self.try_parse(fun)
    }

    /// Hands a copy of the cursor to `parse_fn`, which returns a value and
    /// the cursor it ended at; on success the stream moves there, on failure
    /// it stays.
    pub fn try_step<R>(&mut self, parse_fn: impl FnOnce(Cursor<'a>) -> Result<(R, Cursor<'a>)>) -> (r:
        Result<R>)
        requires
            old(self).wf(),
            parse_fn.requires((old(self).cursor(),)),
            forall|c: Cursor<'a>, x: Result<(R, Cursor<'a>)>| #[trigger]
                parse_fn.ensures((c,), x) ==> (x is Ok ==> forward(c, x->Ok_0.1)),
        ensures
            stepped(*old(self), *final(self)),
            r is Err ==> same_state(*old(self), *final(self)),
            exists|x: Result<(R, Cursor<'a>)>| #[trigger]
                parse_fn.ensures((old(self).cursor(),), x) && match x {
                    Ok(p) => r == Ok::<R, ParseError>(p.0) && final(self).cursor() == p.1,
                    Err(e) => r == Err::<R, ParseError>(e),
                },
    {
        match parse_fn(self.cursor) {
            Ok((node, left)) => {
                self.cursor = left;
                proof {
                    Self::lemma_forward_wf(*old(self), *self);
                }
                Ok(node)
            },
            Err(e) => Err(e),
        }
    }

    /// Parses `P` repeatedly until the input is used up or only white space
    /// is left. The first error ends it and is handed on; so does a parse
    /// that succeeds without consuming anything.
    ///
    /// On success the items come from a chain of stream states: the k-th
    /// item is what `P::parse` returned from the k-th state, where something
    /// other than white space was left, ending at the next, further on.
    pub fn exhaustive_parse<P: Parse>(&mut self) -> (r: Result<Vec<P>>)
        requires
            old(self).wf(),
        ensures
            stepped(*old(self), *final(self)),
            r is Ok ==> all_whitespace(final(self).rest()),
            all_whitespace(old(self).rest()) ==> r is Ok && r->Ok_0@.len() == 0 && same_state(
                *old(self),
                *final(self),
            ),
            r is Ok ==> exists|states: Seq<ParseStream<'a>>|
                {
                    &&& states.len() == r->Ok_0@.len() + 1
                    &&& states[0] == *old(self)
                    &&& states.last() == *final(self)
                    &&& forall|k: int|
                        0 <= k < r->Ok_0@.len() ==> {
                            &&& !all_whitespace(#[trigger] states[k].rest())
                            &&& states[k].pos() < states[k + 1].pos()
                            &&& exists|m: &mut ParseStream<'a>|
                                *m == states[k] && *final(m) == states[k + 1] && #[trigger]
                                call_ensures(P::parse, (m,), Ok::<P, ParseError>(r->Ok_0@[k]))
                        }
                },
            r is Err ==> r->Err_0 == "Expected the parsed entity to consume input." || exists|
                m: &mut ParseStream<'a>,
            |
                (*m).input() == old(self).input() && !all_whitespace((*m).rest()) && #[trigger]
                call_ensures(P::parse, (m,), Err::<P, ParseError>(r->Err_0)),
    {
        let mut results: Vec<P> = Vec::new();
        let ghost mut states: Seq<ParseStream<'a>> = seq![*self];
        let ghost mut rs: Seq<Result<P>> = Seq::empty();
        loop
            invariant
                stepped(*old(self), *self),
                all_whitespace(old(self).rest()) ==> results@.len() == 0 && same_state(
                    *old(self),
                    *self,
                ),
                states.len() == results@.len() + 1,
                rs.len() == results@.len(),
                states[0] == *old(self),
                states.last() == *self,
                forall|k: int| 0 <= k < rs.len() ==> #[trigger] rs[k] == Ok::<P, ParseError>(results@[k]),
                forall|k: int|
                    0 <= k < rs.len() ==> !all_whitespace(#[trigger] states[k].rest()) && states[k].pos()
                        < states[k + 1].pos(),
                forall|k: int|
                    0 <= k < rs.len() ==> exists|m: &mut ParseStream<'a>|
                        *m == #[trigger] states[k] && *final(m) == states[k + 1] && call_ensures(
                            P::parse,
                            (m,),
                            rs[k],
                        ),
            ensures
                stepped(*old(self), *self),
                all_whitespace(self.rest()),
                all_whitespace(old(self).rest()) ==> results@.len() == 0 && same_state(
                    *old(self),
                    *self,
                ),
                states.len() == results@.len() + 1,
                rs.len() == results@.len(),
                states[0] == *old(self),
                states.last() == *self,
                forall|k: int| 0 <= k < rs.len() ==> #[trigger] rs[k] == Ok::<P, ParseError>(results@[k]),
                forall|k: int|
                    0 <= k < rs.len() ==> !all_whitespace(#[trigger] states[k].rest()) && states[k].pos()
                        < states[k + 1].pos(),
                forall|k: int|
                    0 <= k < rs.len() ==> exists|m: &mut ParseStream<'a>|
                        *m == #[trigger] states[k] && *final(m) == states[k + 1] && call_ensures(
                            P::parse,
                            (m,),
                            rs[k],
                        ),
            decreases self.input().len() - self.pos(),
        {
            if self.is_empty() || self.is_only_whitespaces() {
                proof {
                    if self.pos() == self.input().len() {
                        assert(self.rest().len() == 0);
                    }
                }
                break;
            }
            let ghost here = *self;
            let before = self.cursor.index();
            let res = self.parse::<P>();
            proof {
                assert(exists|m: &mut ParseStream<'a>|
                    *m == here && *final(m) == *self && call_ensures(P::parse, (m,), res));
            }
            let ghost res_copy = res;
            let item = match res {
                Ok(item) => item,
                Err(e) => {
                    return Err(e);
                },
            };
            if self.cursor.index() == before {
                return Err("Expected the parsed entity to consume input.");
            }
            proof {
                states = states.push(*self);
                rs = rs.push(res_copy);
            }
            results.push(item);
        }
        proof {
            assert forall|k: int| 0 <= k < results@.len() implies {
                &&& !all_whitespace(#[trigger] states[k].rest())
                &&& states[k].pos() < states[k + 1].pos()
                &&& exists|m: &mut ParseStream<'a>|
                    *m == states[k] && *final(m) == states[k + 1] && #[trigger]
                    call_ensures(P::parse, (m,), Ok::<P, ParseError>(results@[k]))
            } by {
                assert(rs[k] == Ok::<P, ParseError>(results@[k]));
                assert(!all_whitespace(states[k].rest()));
            }
        }
        Ok(results)
    }

    /// Opens a span at the current position.
    pub fn push_span(&mut self) -> (r: SpanGuard)
        requires
            old(self).wf(),
        ensures
            final(self).wf(),
            final(self).cursor() == old(self).cursor(),
            final(self).frames() == old(self).frames().push(old(self).pos() as usize),
            r.depth() == old(self).depth(),
    {
        let index = self.cursor.index();
        let depth = self.spans.len();
        self.spans.push(index);
        proof {
            assert forall|i: int| 0 <= i < self.depth() implies #[trigger] self.frames()[i]
                <= self.pos() by {
                if i < old(self).depth() {
                    assert(self.frames()[i] == old(self).frames()[i]);
                }
            }
        }
        SpanGuard::new(depth)
    }
}

/// A stream over `input`.
pub fn parse_stream<'a>(input: &'a [char]) -> (r: ParseStream<'a>)
    ensures
        r.wf(),
        r.input() == input@,
        r.pos() == 0,
        r.depth() == 0,
{
    ParseStream::new(input)
}

/// Parses one `T` from the start of `input`.
pub fn parse<T: Parse>(input: &str) -> (r: Result<T>)
    ensures
        exists|m: &mut ParseStream|
            m.wf() && m.input() == input@ && m.pos() == 0 && m.depth() == 0 && #[trigger] call_ensures(
                T::parse,
                (m,),
                r,
            ),
{
    let chars = chars_of(input);
    let mut stream = ParseStream::new(chars.as_slice());
    T::parse(&mut stream)
}

/// Parses `T` repeatedly from `input` until it is used up or only white
/// space is left; the first error ends it and is handed on.
pub fn exhaustive_parse<T: Parse>(input: &str) -> (r: Result<Vec<T>>)
    ensures
        all_whitespace(input@) ==> r is Ok && r->Ok_0@.len() == 0,
        exists|m: &mut ParseStream|
            m.wf() && m.input() == input@ && m.pos() == 0 && m.depth() == 0 && #[trigger] call_ensures(
                ParseStream::exhaustive_parse::<T>,
                (m,),
                r,
            ),
{
    let chars = chars_of(input);
    let mut stream = ParseStream::new(chars.as_slice());
    proof {
        assert(stream.rest() == input@);
    }
    stream.exhaustive_parse::<T>()
}

} // verus!
