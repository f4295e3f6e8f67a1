use vstd::prelude::*;
use vstd::string::StringExecFns;
use crate::parse::{Parse, ParseStream, Result, stepped, same_state};
use crate::span::{Span, Spanned};
use crate::text::{same_text, push_char};
use crate::unicode::{is_xid_start, is_xid_continue, xid_start, xid_continue, is_whitespace};

verus! {

/// An ASCII decimal digit.
pub open spec fn is_digit(c: char) -> bool {
    '0' <= c && c <= '9'
}

/// The number a run of decimal digits spells.
pub open spec fn digits_value(s: Seq<char>) -> int
    decreases s.len(),
{
    if s.len() == 0 {
        0
    } else {
        digits_value(s.drop_last()) * 10 + (s.last() as int - '0' as int)
    }
}

/// The end of the run of digits in `s` that starts at `from`.
pub open spec fn digit_run_end(s: Seq<char>, from: int) -> int
    decreases s.len() - from,
{
    if 0 <= from < s.len() && is_digit(s[from]) {
        digit_run_end(s, from + 1)
    } else {
        from
    }
}

/// A run of digits from `from` to `to` that cannot be extended ends where
/// `digit_run_end` says.
pub proof fn lemma_digit_run_end(s: Seq<char>, from: int, to: int)
    requires
        0 <= from <= to <= s.len(),
        forall|i: int| from <= i < to ==> is_digit(#[trigger] s[i]),
        to < s.len() ==> !is_digit(s[to]),
    ensures
        digit_run_end(s, from) == to,
    decreases to - from,
{
    if from < to {
        lemma_digit_run_end(s, from + 1, to);
    }
}

/// Appending digits never makes the value smaller.
pub proof fn lemma_digits_value_grows(s: Seq<char>, i: int, j: int)
    requires
        0 <= i <= j <= s.len(),
        forall|k: int| 0 <= k < s.len() ==> is_digit(#[trigger] s[k]),
    ensures
        digits_value(s.subrange(0, i)) <= digits_value(s.subrange(0, j)),
    decreases j - i,
{
    if i < j {
        lemma_digits_value_grows(s, i, j - 1);
        assert(s.subrange(0, j).drop_last() == s.subrange(0, j - 1));
        assert(digits_value(s.subrange(0, j - 1)) >= 0) by {
            lemma_digits_value_nonneg(s.subrange(0, j - 1));
        }
    }
}

/// A run of digits spells a non-negative number.
pub proof fn lemma_digits_value_nonneg(s: Seq<char>)
    requires
        forall|k: int| 0 <= k < s.len() ==> is_digit(#[trigger] s[k]),
    ensures
        digits_value(s) >= 0,
    decreases s.len(),
{
    if s.len() > 0 {
        lemma_digits_value_nonneg(s.drop_last());
    }
}

/// The run that `digit_run_end` measures is made of digits and lies in `s`.
pub proof fn lemma_digit_run(s: Seq<char>, from: int)
    requires
        0 <= from <= s.len(),
    ensures
        from <= digit_run_end(s, from) <= s.len(),
        forall|i: int| from <= i < digit_run_end(s, from) ==> is_digit(#[trigger] s[i]),
        digits_value(s.subrange(from, digit_run_end(s, from))) >= 0,
    decreases s.len() - from,
{
    if from < s.len() && is_digit(s[from]) {
        lemma_digit_run(s, from + 1);
    }
    let run = s.subrange(from, digit_run_end(s, from));
    assert forall|k: int| 0 <= k < run.len() implies is_digit(#[trigger] run[k]) by {
        assert(run[k] == s[from + k]);
    }
    lemma_digits_value_nonneg(run);
}

/// Width of an optional leading `+` or `-` at `at`.
pub open spec fn sign_len(s: Seq<char>, at: int) -> int {
    if 0 <= at < s.len() && (s[at] == '-' || s[at] == '+') {
        1
    } else {
        0
    }
}

/// The largest value of an expression's integer leaf.
pub const UINT_MAX: u64 = 4294967295;

/// An integer literal: an optional sign and at least one decimal digit.
#[derive(Debug, PartialEq, Eq, Structural, Copy, Clone)]
pub struct LitInt {
    pub value: i64,
}

fn is_ascii_digit(c: char) -> (r: bool)
    ensures
        r == is_digit(c),
{
    '0' <= c && c <= '9'
}

/// What reading a run of digits from stream state `a` to `b` with result
/// `r` means, the number being allowed up to `max`: the digits' value, or
/// an error that consumes nothing.
pub open spec fn digits_outcome<'a>(a: ParseStream<'a>, b: ParseStream<'a>, r: Result<u64>, max: int) -> bool {
    let s = a.input();
    let p = a.pos();
    let e = digit_run_end(s, p);
    let v = digits_value(s.subrange(p, e));
    if e == p {
        r == Err::<u64, &'static str>("Expected integer.") && same_state(a, b)
    } else if v > max {
        r == Err::<u64, &'static str>("Integer literal out of range.") && same_state(a, b)
    } else {
        r == Ok::<u64, &'static str>(v as u64) && b.pos() == e
    }
}

/// Reads a run of decimal digits whose value is at most `max`.
fn digits(stream: &mut ParseStream, max: u64) -> (r: Result<u64>)
    requires
        old(stream).wf(),
    ensures
        stepped(*old(stream), *final(stream)),
        digits_outcome(*old(stream), *final(stream), r, max as int),
{
    let start = stream.snapshot();
    let ghost b = stream.pos();
    let taken = stream.cur().advance_while(|c: char| -> (r: bool)
        ensures
            r == is_digit(c),
        { is_ascii_digit(c) });
    proof {
        ParseStream::lemma_forward_wf(*old(stream), *stream);
        lemma_digit_run_end(stream.input(), b, stream.pos());
    }
    if taken.len() == 0 {
        stream.rewind(start);
        return Err("Expected integer.");
    }
    let mut acc: u64 = 0;
    let mut i: usize = 0;
    let mut overflow = false;
    while i < taken.len() && !overflow
        invariant
            0 <= i <= taken@.len(),
            !overflow ==> acc == digits_value(taken@.subrange(0, i as int)),
            !overflow ==> acc <= max,
            overflow ==> digits_value(taken@.subrange(0, i as int)) > max,
            forall|j: int| 0 <= j < taken@.len() ==> is_digit(#[trigger] taken@[j]),
        decreases taken@.len() - i,
    {
        let d = (taken[i] as u32 - '0' as u32) as u64;
        assert(taken@.subrange(0, i + 1).drop_last() == taken@.subrange(0, i as int));
        if d > max || acc > (max - d) / 10 {
            assert(acc * 10 + d > max) by (nonlinear_arith)
                requires
                    d > max || acc > (max - d) / 10,
                    d <= 9,
                    acc >= 0,
            ;
            overflow = true;
        } else {
            assert(acc * 10 + d <= max) by (nonlinear_arith)
                requires
                    acc <= (max - d) / 10,
                    d <= max,
            ;
            acc = acc * 10 + d;
        }
        i = i + 1;
    }
    if overflow {
        proof {
            lemma_digits_value_grows(taken@, i as int, taken@.len() as int);
            assert(taken@.subrange(0, taken@.len() as int) == taken@);
        }
        stream.rewind(start);
        return Err("Integer literal out of range.");
    }
    assert(taken@.subrange(0, i as int) == taken@);
    Ok(acc)
}

/// What parsing an unsigned integer from stream state `a` to `b` with
/// result `r` means: the value of the digits at `a`, at most `UINT_MAX`, or
/// an error that consumes nothing.
pub open spec fn uint_outcome<'a>(a: ParseStream<'a>, b: ParseStream<'a>, r: Result<u32>) -> bool {
    let s = a.input();
    let p = a.pos();
    let e = digit_run_end(s, p);
    let v = digits_value(s.subrange(p, e));
    if e == p {
        r == Err::<u32, &'static str>("Expected integer.") && same_state(a, b)
    } else if v > UINT_MAX {
        r == Err::<u32, &'static str>("Integer literal out of range.") && same_state(a, b)
    } else {
        r == Ok::<u32, &'static str>(v as u32) && b.pos() == e
    }
}

/// Parses a run of decimal digits at the stream's position. Fails,
/// consuming nothing, when there is no digit or when the number exceeds
/// `UINT_MAX`.
pub fn uint(stream: &mut ParseStream) -> (r: Result<u32>)
    requires
        old(stream).wf(),
    ensures
        stepped(*old(stream), *final(stream)),
        uint_outcome(*old(stream), *final(stream), r),
{
    proof {
        lemma_digit_run(stream.input(), stream.pos());
    }
    match digits(stream, UINT_MAX) {
        Ok(v) => Ok(v as u32),
        Err(e) => Err(e),
    }
}

/// The literal at `p` is negative.
pub open spec fn negative_at(s: Seq<char>, p: int) -> bool {
    sign_len(s, p) == 1 && s[p] == '-'
}

/// The largest magnitude an integer literal may have: that of `i64::MIN`
/// when negative, of `i64::MAX` otherwise.
pub open spec fn lit_int_limit(s: Seq<char>, p: int) -> int {
    if negative_at(s, p) {
        0x8000_0000_0000_0000
    } else {
        0x7FFF_FFFF_FFFF_FFFF
    }
}

/// An integer literal starts at `p`: digits after the optional sign, their
/// value within `lit_int_limit`.
pub open spec fn lit_int_at(s: Seq<char>, p: int) -> bool {
    let b = p + sign_len(s, p);
    let e = digit_run_end(s, b);
    e > b && digits_value(s.subrange(b, e)) <= lit_int_limit(s, p)
}

/// The value of the integer literal at `p`.
pub open spec fn lit_int_value(s: Seq<char>, p: int) -> int {
    let b = p + sign_len(s, p);
    let v = digits_value(s.subrange(b, digit_run_end(s, b)));
    if negative_at(s, p) {
        -v
    } else {
        v
    }
}

/// What parsing an integer literal from stream state `a` to `b` with result
/// `r` means.
pub open spec fn lit_int_outcome<'a>(a: ParseStream<'a>, b: ParseStream<'a>, r: Result<LitInt>) -> bool {
    let s = a.input();
    let p = a.pos();
    let d = p + sign_len(s, p);
    let e = digit_run_end(s, d);
    if e == d {
        r == Err::<LitInt, &'static str>("Expected integer.") && same_state(a, b)
    } else if !lit_int_at(s, p) {
        r == Err::<LitInt, &'static str>("Integer literal out of range.") && same_state(a, b)
    } else {
        r == Ok::<LitInt, &'static str>(LitInt { value: lit_int_value(s, p) as i64 }) && b.pos()
            == e
    }
}

impl LitInt {
    /// Parses an integer literal at the stream's position. Fails, consuming
    /// nothing, when no digit follows the optional sign or when the value
    /// does not fit in an `i64`.
    pub fn parse_lit(stream: &mut ParseStream) -> (r: Result<LitInt>)
        requires
            old(stream).wf(),
        ensures
            stepped(*old(stream), *final(stream)),
            lit_int_outcome(*old(stream), *final(stream), r),
    {
        let start = stream.snapshot();
        let negative = stream.eats('-');
        if !negative {
            stream.eats('+');
        }
        assert(stream.pos() == old(stream).pos() + sign_len(old(stream).input(), old(stream).pos()));
        proof {
            lemma_digit_run(stream.input(), stream.pos());
        }
        assert(negative == negative_at(old(stream).input(), old(stream).pos()));
        let limit: u64 = if negative {
            0x8000_0000_0000_0000
        } else {
            0x7FFF_FFFF_FFFF_FFFF
        };
        match digits(stream, limit) {
            Ok(v) => {
                let value: i64 = if !negative {
                    v as i64
                } else if v == 0x8000_0000_0000_0000 {
                    i64::MIN
                } else {
                    -(v as i64)
                };
                Ok(LitInt { value })
            },
            Err(e) => {
                stream.rewind(start);
                Err(e)
            },
        }
    }
}

impl Parse for LitInt {
    fn parse(stream: &mut ParseStream) -> (r: Result<LitInt>)
        ensures
            lit_int_outcome(*old(stream), *final(stream), r),
    {
        LitInt::parse_lit(stream)
    }
}

/// The end of the run of values in `s` from `from` on that `p` accepts.
pub open spec fn run_end(s: Seq<char>, from: int, p: spec_fn(char) -> bool) -> int
    decreases s.len() - from,
{
    if 0 <= from < s.len() && p(s[from]) {
        run_end(s, from + 1, p)
    } else {
        from
    }
}

/// A run from `from` to `to` that `p` accepts and that cannot be extended
/// ends where `run_end` says.
pub proof fn lemma_run_end(s: Seq<char>, from: int, to: int, p: spec_fn(char) -> bool)
    requires
        0 <= from <= to <= s.len(),
        forall|i: int| from <= i < to ==> p(#[trigger] s[i]),
        to < s.len() ==> !p(s[to]),
    ensures
        run_end(s, from, p) == to,
    decreases to - from,
{
    if from < to {
        lemma_run_end(s, from + 1, to, p);
    }
}

/// The end of an identifier that starts at `p`.
pub open spec fn ident_end(s: Seq<char>, p: int) -> int {
    run_end(s, p + 1, |c: char| xid_continue(c))
}

/// The offset of the first `"` at or after `from`, or the end of `s`.
pub open spec fn quote_end(s: Seq<char>, from: int) -> int {
    run_end(s, from, |c: char| c != '"')
}

/// A string literal starts at `p`: a `"` with another `"` after it.
pub open spec fn lit_str_at(s: Seq<char>, p: int) -> bool {
    0 <= p < s.len() && s[p] == '"' && quote_end(s, p + 1) < s.len()
}

/// The opening or closing `"` of a string literal.
#[derive(Debug, PartialEq, Eq, Structural, Copy, Clone)]
pub struct Quote;

/// What parsing a `Quote` from stream state `a` to `b` with result `r` means.
pub open spec fn quote_outcome<'a>(a: ParseStream<'a>, b: ParseStream<'a>, r: Result<Quote>) -> bool {
    let s = a.input();
    let p = a.pos();
    if p < s.len() && s[p] == '"' {
        r == Ok::<Quote, &'static str>(Quote) && b.pos() == p + 1
    } else {
        r == Err::<Quote, &'static str>("Expected '\"'") && same_state(a, b)
    }
}

impl Quote {
    /// Parses a `"`; fails, consuming nothing, on anything else.
    pub fn parse_quote(stream: &mut ParseStream) -> (r: Result<Quote>)
        requires
            old(stream).wf(),
        ensures
            stepped(*old(stream), *final(stream)),
            quote_outcome(*old(stream), *final(stream), r),
    {
        if stream.eats('"') {
            Ok(Quote)
        } else {
            Err("Expected '\"'")
        }
    }
}

impl Parse for Quote {
    fn parse(stream: &mut ParseStream) -> (r: Result<Quote>)
        ensures
            quote_outcome(*old(stream), *final(stream), r),
    {
        Quote::parse_quote(stream)
    }
}

/// A string literal: the values between two `"`.
#[derive(Debug)]
pub struct LitStr {
    pub val: String,
}

/// What parsing a `LitStr` from stream state `a` to `b` with result `r` means.
pub open spec fn lit_str_outcome<'a>(a: ParseStream<'a>, b: ParseStream<'a>, r: Result<LitStr>) -> bool {
    let s = a.input();
    let p = a.pos();
    let q = quote_end(s, p + 1);
    if p < s.len() && s[p] == '"' && q < s.len() {
        &&& r is Ok
        &&& r->Ok_0.val@ == s.subrange(p + 1, q)
        &&& b.pos() == q + 1
    } else {
        &&& r is Err
        &&& r->Err_0 == "Expected '\"'"
        &&& same_state(a, b)
    }
}

impl LitStr {
    /// Parses `"`, the values up to the next `"`, and that `"`. Fails,
    /// consuming nothing, when either quote is missing.
    pub fn parse_lit(stream: &mut ParseStream) -> (r: Result<LitStr>)
        requires
            old(stream).wf(),
        ensures
            stepped(*old(stream), *final(stream)),
            lit_str_outcome(*old(stream), *final(stream), r),
    {
        let start = stream.snapshot();
        if let Err(e) = Quote::parse_quote(stream) {
            return Err(e);
        }
        let ghost b = stream.pos();
        let val = stream.string_while(|c: char| -> (r: bool)
            ensures
                r == (c != '"'),
            { c != '"' });
        proof {
            lemma_run_end(stream.input(), b, stream.pos(), |c: char| c != '"');
        }
        match Quote::parse_quote(stream) {
            Ok(_) => Ok(LitStr { val }),
            Err(e) => {
                stream.rewind(start);
                Err(e)
            },
        }
    }
}

impl Parse for LitStr {
    fn parse(stream: &mut ParseStream) -> (r: Result<LitStr>)
        ensures
            lit_str_outcome(*old(stream), *final(stream), r),
    {
        LitStr::parse_lit(stream)
    }
}

/// An integer or a string literal.
#[derive(Debug)]
pub enum Literal {
    Int(LitInt),
    String(LitStr),
}

/// What parsing a `Literal` from stream state `a` to `b` with result `r` means.
pub open spec fn literal_outcome<'a>(a: ParseStream<'a>, b: ParseStream<'a>, r: Result<Literal>) -> bool {
    let s = a.input();
    let p = a.pos();
    if lit_int_at(s, p) {
        &&& r is Ok && r->Ok_0 is Int
        &&& r->Ok_0->Int_0.value == lit_int_value(s, p)
        &&& b.pos() == digit_run_end(s, p + sign_len(s, p))
    } else if lit_str_at(s, p) {
        &&& r is Ok && r->Ok_0 is String
        &&& r->Ok_0->String_0.val@ == s.subrange(p + 1, quote_end(s, p + 1))
        &&& b.pos() == quote_end(s, p + 1) + 1
    } else {
        r is Err && r->Err_0 == "Expected integer or str." && same_state(a, b)
    }
}

impl Literal {
    /// An integer literal if one is here, else a string literal; fails,
    /// consuming nothing, when neither is.
    pub fn parse_literal(stream: &mut ParseStream) -> (r: Result<Literal>)
        requires
            old(stream).wf(),
        ensures
            stepped(*old(stream), *final(stream)),
            literal_outcome(*old(stream), *final(stream), r),
    {
        proof {
            let s = stream.input();
            lemma_digit_run(s, stream.pos() + sign_len(s, stream.pos()));
        }
        if let Ok(lit_int) = LitInt::parse_lit(stream) {
            Ok(Literal::Int(lit_int))
        } else if let Ok(lit_str) = LitStr::parse_lit(stream) {
            Ok(Literal::String(lit_str))
        } else {
            Err("Expected integer or str.")
        }
    }
}

impl Parse for Literal {
    fn parse(stream: &mut ParseStream) -> (r: Result<Literal>)
        ensures
            literal_outcome(*old(stream), *final(stream), r),
    {
        Literal::parse_literal(stream)
    }
}

/// One of the four arithmetic operators.
#[derive(Debug, PartialEq, Eq, Structural, Copy, Clone)]
pub enum Punctuation {
    Plus,
    Minus,
    Star,
    Slash,
}

/// The operator a value spells, if any.
pub open spec fn punctuation_of(c: char) -> Option<Punctuation> {
    if c == '+' {
        Some(Punctuation::Plus)
    } else if c == '-' {
        Some(Punctuation::Minus)
    } else if c == '*' {
        Some(Punctuation::Star)
    } else if c == '/' {
        Some(Punctuation::Slash)
    } else {
        None
    }
}

/// What parsing a `Punctuation` from stream state `a` to `b` with result `r` means.
pub open spec fn punctuation_outcome<'a>(a: ParseStream<'a>, b: ParseStream<'a>, r: Result<Punctuation>) -> bool {
    let s = a.input();
    let p = a.pos();
    if p < s.len() && punctuation_of(s[p]) is Some {
        r == Ok::<Punctuation, &'static str>(punctuation_of(s[p])->Some_0)
            && b.pos() == p + 1
    } else {
        r == Err::<Punctuation, &'static str>("Expected `+`, `-`, `*` or `/`.")
            && same_state(a, b)
    }
}

impl Punctuation {
    /// Parses one of `+ - * /`; fails, consuming nothing, on anything else.
    pub fn parse_punct(stream: &mut ParseStream) -> (r: Result<Punctuation>)
        requires
            old(stream).wf(),
        ensures
            stepped(*old(stream), *final(stream)),
            punctuation_outcome(*old(stream), *final(stream), r),
    {
        let p = match stream.peek() {
            Some('+') => Punctuation::Plus,
            Some('-') => Punctuation::Minus,
            Some('*') => Punctuation::Star,
            Some('/') => Punctuation::Slash,
            _ => {
                return Err("Expected `+`, `-`, `*` or `/`.");
            },
        };
        stream.advance();
        Ok(p)
    }
}

impl Parse for Punctuation {
    fn parse(stream: &mut ParseStream) -> (r: Result<Punctuation>)
        ensures
            punctuation_outcome(*old(stream), *final(stream), r),
    {
        Punctuation::parse_punct(stream)
    }
}

/// An identifier: a value with `XID_Start` followed by values with
/// `XID_Continue`, with the span it was read from.
#[derive(Debug)]
pub struct Ident {
    pub string: String,
    pub span: Span,
}

impl Spanned for Ident {
    fn span(&self) -> (r: Span)
        ensures
            r == self.span,
    {
        self.span
    }

    fn span_ref_mut(&mut self) -> (r: &mut Span)
        ensures
            *r == old(self).span,
            final(self).span == *final(r),
            final(self).string == old(self).string,
    {
        &mut self.span
    }
}

/// What parsing an `Ident` from stream state `a` to `b` with result `r` means.
pub open spec fn ident_outcome<'a>(a: ParseStream<'a>, b: ParseStream<'a>, r: Result<Ident>) -> bool {
    let s = a.input();
    let p = a.pos();
    let e = ident_end(s, p);
    if p < s.len() && xid_start(s[p]) {
        &&& r is Ok
        &&& r->Ok_0.string@ == s.subrange(p, e)
        &&& r->Ok_0.span == (Span { begin: p as usize, end: e as usize })
        &&& b.pos() == e
    } else {
        r == Err::<Ident, &'static str>("Expected identifier.") && same_state(a, b)
    }
}

impl Ident {
    /// Parses an identifier; fails, consuming nothing, when the next value
    /// cannot start one.
    pub fn parse_ident(stream: &mut ParseStream) -> (r: Result<Ident>)
        requires
            old(stream).wf(),
        ensures
            stepped(*old(stream), *final(stream)),
            ident_outcome(*old(stream), *final(stream), r),
    {
        let first = match stream.peek() {
            Some(c) => c,
            None => {
                return Err("Expected identifier.");
            },
        };
        if !is_xid_start(first) {
            return Err("Expected identifier.");
        }
        let guard = stream.push_span();
        let ghost s1 = *stream;
        stream.advance();
        let ghost b = stream.pos();
        let rest = stream.string_while(|c: char| -> (r: bool)
            ensures
                r == xid_continue(c),
            { is_xid_continue(c) });
        proof {
            lemma_run_end(stream.input(), b, stream.pos(), |c: char| xid_continue(c));
        }
        let mut string = String::new();
        push_char(&mut string, first);
        string.append(rest.as_str());
        let span = guard.into_inner(stream);
        proof {
            assert(string@ =~= stream.input().subrange(old(stream).pos(), stream.pos()));
            assert(stream.frames() =~= old(stream).frames());
        }
        Ok(Ident { string, span })
    }
}

impl Parse for Ident {
    fn parse(stream: &mut ParseStream) -> (r: Result<Ident>)
        ensures
            ident_outcome(*old(stream), *final(stream), r),
    {
        Ident::parse_ident(stream)
    }
}

/// A keyword or an identifier.
#[derive(Debug)]
pub enum Symbol {
    KwFunction,
    KwLet,
    KwIf,
    Ident(Ident),
}

/// `sym` is what the identifier at `p` reads as: a keyword, or an
/// identifier with its text and span.
pub open spec fn symbol_read(sym: Symbol, s: Seq<char>, p: int) -> bool {
    let e = ident_end(s, p);
    let word = s.subrange(p, e);
    if word == "fun"@ {
        sym is KwFunction
    } else if word == "let"@ {
        sym is KwLet
    } else if word == "if"@ {
        sym is KwIf
    } else {
        &&& sym is Ident
        &&& sym->Ident_0.string@ == word
        &&& sym->Ident_0.span == (Span { begin: p as usize, end: e as usize })
    }
}

/// What parsing a `Symbol` from stream state `a` to `b` with result `r` means.
pub open spec fn symbol_outcome<'a>(a: ParseStream<'a>, b: ParseStream<'a>, r: Result<Symbol>) -> bool {
    let s = a.input();
    let p = a.pos();
    let e = ident_end(s, p);
    if p < s.len() && xid_start(s[p]) {
        &&& b.pos() == e
        &&& r is Ok
        &&& symbol_read(r->Ok_0, s, p)
    } else {
        r is Err && r->Err_0 == "Expected identifier, `function`, `let` or `if`."
            && same_state(a, b)
    }
}

impl Symbol {
    /// Parses an identifier and reads `fun`, `let` and `if` as keywords.
    pub fn parse_symbol(stream: &mut ParseStream) -> (r: Result<Symbol>)
        requires
            old(stream).wf(),
        ensures
            stepped(*old(stream), *final(stream)),
            symbol_outcome(*old(stream), *final(stream), r),
    {
        let ident = match Ident::parse_ident(stream) {
            Ok(ident) => ident,
            Err(_) => {
                return Err("Expected identifier, `function`, `let` or `if`.");
            },
        };
        proof {
            reveal_strlit("fun");
            reveal_strlit("let");
            reveal_strlit("if");
            assert("fun"@[0] != "let"@[0]);
            assert("fun"@.len() != "if"@.len());
            assert("let"@.len() != "if"@.len());
        }
        if same_text(ident.string.as_str(), "fun") {
            Ok(Symbol::KwFunction)
        } else if same_text(ident.string.as_str(), "let") {
            Ok(Symbol::KwLet)
        } else if same_text(ident.string.as_str(), "if") {
            Ok(Symbol::KwIf)
        } else {
            Ok(Symbol::Ident(ident))
        }
    }
}

impl Parse for Symbol {
    fn parse(stream: &mut ParseStream) -> (r: Result<Symbol>)
        ensures
            symbol_outcome(*old(stream), *final(stream), r),
    {
        Symbol::parse_symbol(stream)
    }
}

/// One token of the example language.
#[derive(Debug)]
pub enum Token {
    Punctuation(Punctuation),
    Literal(Literal),
    Symbol(Symbol),
}

/// The end of the run of white space from `p` on.
pub open spec fn ws_end(s: Seq<char>, p: int) -> int {
    run_end(s, p, |c: char| crate::unicode::whitespace(c))
}

/// What parsing a `Token` from stream state `a` to `b` with result `r` means.
pub open spec fn token_outcome<'a>(a: ParseStream<'a>, b: ParseStream<'a>, r: Result<Token>) -> bool {
    let s = a.input();
    let q = ws_end(s, a.pos());
    if lit_int_at(s, q) {
        &&& r is Ok && r->Ok_0 is Literal && r->Ok_0->Literal_0 is Int
        &&& r->Ok_0->Literal_0->Int_0.value == lit_int_value(s, q)
        &&& b.pos() == digit_run_end(s, q + sign_len(s, q))
    } else if lit_str_at(s, q) {
        &&& r is Ok && r->Ok_0 is Literal && r->Ok_0->Literal_0 is String
        &&& r->Ok_0->Literal_0->String_0.val@ == s.subrange(q + 1, quote_end(s, q + 1))
        &&& b.pos() == quote_end(s, q + 1) + 1
    } else if q < s.len() && punctuation_of(s[q]) is Some {
        &&& r is Ok && r->Ok_0 is Punctuation
        &&& r->Ok_0->Punctuation_0 == punctuation_of(s[q])->Some_0
        &&& b.pos() == q + 1
    } else if q < s.len() && xid_start(s[q]) {
        &&& r is Ok && r->Ok_0 is Symbol
        &&& symbol_read(r->Ok_0->Symbol_0, s, q)
        &&& b.pos() == ident_end(s, q)
    } else {
        r is Err && r->Err_0 == "Expected punctuation, symbol or literal."
            && same_state(a, b)
    }
}

impl Token {
    /// Skips white space, then reads a literal, an operator or a symbol, in
    /// that order of preference; fails, consuming nothing, when none is
    /// there.
    pub fn parse_token(stream: &mut ParseStream) -> (r: Result<Token>)
        requires
            old(stream).wf(),
        ensures
            stepped(*old(stream), *final(stream)),
            token_outcome(*old(stream), *final(stream), r),
    {
        let start = stream.snapshot();
        let ghost p = stream.pos();
        stream.skip_all(|c: char| -> (r: bool)
            ensures
                r == crate::unicode::whitespace(c),
            { is_whitespace(c) });
        proof {
            lemma_run_end(stream.input(), p, stream.pos(), |c: char| crate::unicode::whitespace(c));
        }
        if let Ok(lit) = Literal::parse_literal(stream) {
            Ok(Token::Literal(lit))
        } else if let Ok(punctuation) = Punctuation::parse_punct(stream) {
            Ok(Token::Punctuation(punctuation))
        } else if let Ok(symbol) = Symbol::parse_symbol(stream) {
            Ok(Token::Symbol(symbol))
        } else {
            stream.rewind(start);
            Err("Expected punctuation, symbol or literal.")
        }
    }
}

impl Parse for Token {
    fn parse(stream: &mut ParseStream) -> (r: Result<Token>)
        ensures
            token_outcome(*old(stream), *final(stream), r),
    {
        Token::parse_token(stream)
    }
}

/// A line break.
#[derive(Debug, PartialEq, Eq, Structural, Copy, Clone)]
pub enum LineBreak {
    CRLF,
    CR,
    LF,
    NEL,
}

/// What parsing a `LineBreak` from stream state `a` to `b` with result `r` means.
pub open spec fn line_break_outcome<'a>(a: ParseStream<'a>, b: ParseStream<'a>, r: Result<LineBreak>) -> bool {
    let s = a.input();
    let p = a.pos();
    if p < s.len() && s[p] == '\r' {
        if p + 1 < s.len() && s[p + 1] == '\n' {
            r == Ok::<LineBreak, &'static str>(LineBreak::CRLF) && b.pos()
                == p + 2
        } else {
            r == Ok::<LineBreak, &'static str>(LineBreak::CR) && b.pos()
                == p + 1
        }
    } else if p < s.len() && s[p] == '\n' {
        r == Ok::<LineBreak, &'static str>(LineBreak::LF) && b.pos() == p
            + 1
    } else if p < s.len() && s[p] == '\u{0085}' {
        r == Ok::<LineBreak, &'static str>(LineBreak::NEL) && b.pos() == p
            + 1
    } else {
        r == Err::<LineBreak, &'static str>(
            "Unrecognized linebreak. Expected CRLF, CR, LF or NEL.",
        ) && same_state(a, b)
    }
}

impl LineBreak {
    /// Parses `\r\n`, `\r`, `\n` or U+0085; fails, consuming nothing, on
    /// anything else.
    pub fn parse_break(stream: &mut ParseStream) -> (r: Result<LineBreak>)
        requires
            old(stream).wf(),
        ensures
            stepped(*old(stream), *final(stream)),
            line_break_outcome(*old(stream), *final(stream), r),
    {
        if stream.eats('\r') {
            if stream.eats('\n') {
                Ok(LineBreak::CRLF)
            } else {
                Ok(LineBreak::CR)
            }
        } else if stream.eats('\n') {
            Ok(LineBreak::LF)
        } else if stream.eats('\u{0085}') {
            Ok(LineBreak::NEL)
        } else {
            Err("Unrecognized linebreak. Expected CRLF, CR, LF or NEL.")
        }
    }
}

impl Parse for LineBreak {
    fn parse(stream: &mut ParseStream) -> (r: Result<LineBreak>)
        ensures
            line_break_outcome(*old(stream), *final(stream), r),
    {
        LineBreak::parse_break(stream)
    }
}

/// Parses a line break; see `LineBreak::parse_break`.
pub fn parse_linebreak(stream: &mut ParseStream) -> (r: Result<LineBreak>)
    requires
        old(stream).wf(),
    ensures
        stepped(*old(stream), *final(stream)),
        line_break_outcome(*old(stream), *final(stream), r),
{
    LineBreak::parse_break(stream)
}

/// An arithmetic expression over unsigned integers.
#[derive(Debug)]
pub enum Expr {
    Add(Box<Expr>, Box<Expr>),
    Sub(Box<Expr>, Box<Expr>),
    Mul(Box<Expr>, Box<Expr>),
    Div(Box<Expr>, Box<Expr>),
    UInt(u32),
}

/// The integer at `p` and the offset after it, if there is one in range.
pub open spec fn atom_at(s: Seq<char>, p: int) -> Option<(Expr, int)> {
    let e = digit_run_end(s, p);
    let v = digits_value(s.subrange(p, e));
    if 0 <= p && p < e && v <= UINT_MAX {
        Some((Expr::UInt(v as u32), e))
    } else {
        None
    }
}

/// Folds `* atom` and `/ atom` from `e` on onto `acc`; `None` when an
/// operator lacks its operand.
pub open spec fn product_rest(s: Seq<char>, e: int, acc: Expr) -> Option<(Expr, int)>
    decreases s.len() - e,
{
    if 0 <= e < s.len() && (s[e] == '*' || s[e] == '/') {
        match atom_at(s, e + 1) {
            Some(next) => if e < next.1 <= s.len() {
                let folded = if s[e] == '*' {
                    Expr::Mul(Box::new(acc), Box::new(next.0))
                } else {
                    Expr::Div(Box::new(acc), Box::new(next.0))
                };
                product_rest(s, next.1, folded)
            } else {
                None
            },
            None => None,
        }
    } else {
        Some((acc, e))
    }
}

/// The product at `p` and the offset after it.
pub open spec fn product_at(s: Seq<char>, p: int) -> Option<(Expr, int)> {
    match atom_at(s, p) {
        Some(first) => product_rest(s, first.1, first.0),
        None => None,
    }
}

/// Folds `+ product` and `- product` from `e` on onto `acc`; `None` when an
/// operator lacks its operand.
pub open spec fn sum_rest(s: Seq<char>, e: int, acc: Expr) -> Option<(Expr, int)>
    decreases s.len() - e,
{
    if 0 <= e < s.len() && (s[e] == '+' || s[e] == '-') {
        match product_at(s, e + 1) {
            Some(next) => if e < next.1 <= s.len() {
                let folded = if s[e] == '+' {
                    Expr::Add(Box::new(acc), Box::new(next.0))
                } else {
                    Expr::Sub(Box::new(acc), Box::new(next.0))
                };
                sum_rest(s, next.1, folded)
            } else {
                None
            },
            None => None,
        }
    } else {
        Some((acc, e))
    }
}

/// The sum at `p` and the offset after it.
pub open spec fn sum_at(s: Seq<char>, p: int) -> Option<(Expr, int)> {
    match product_at(s, p) {
        Some(first) => sum_rest(s, first.1, first.0),
        None => None,
    }
}

/// Parses the integer at the stream's position as an expression leaf.
fn atom(stream: &mut ParseStream) -> (r: Result<Expr>)
    requires
        old(stream).wf(),
    ensures
        stepped(*old(stream), *final(stream)),
        match atom_at(old(stream).input(), old(stream).pos()) {
            Some(a) => r == Ok::<Expr, &'static str>(a.0) && final(stream).pos() == a.1,
            None => r is Err && same_state(*old(stream), *final(stream)),
        },
{
    proof {
        lemma_digit_run(stream.input(), stream.pos());
    }
    match uint(stream) {
        Ok(v) => Ok(Expr::UInt(v)),
        Err(e) => Err(e),
    }
}

/// What parsing a product from stream state `a` to `b` with result `r`
/// means: the tree `product_at` gives and the offset after it, or an error that
/// consumes nothing.
pub open spec fn product_outcome<'a>(a: ParseStream<'a>, b: ParseStream<'a>, r: Result<Expr>) -> bool {
    &&& match product_at(a.input(), a.pos()) {
        Some(t) => r == Ok::<Expr, &'static str>(t.0) && b.pos() == t.1,
        None => r is Err && same_state(a, b),
    }
    &&& r is Ok ==> b.pos() > a.pos()
}

/// A product: integers joined by `*` and `/`, folded to the left. Fails,
/// consuming nothing, when an integer is missing.
pub fn product(stream: &mut ParseStream) -> (r: Result<Expr>)
    requires
        old(stream).wf(),
    ensures
        stepped(*old(stream), *final(stream)),
        product_outcome(*old(stream), *final(stream), r),
{
    let start = stream.snapshot();
    let mut lhs = match atom(stream) {
        Ok(e) => e,
        Err(e) => {
            return Err(e);
        },
    };
    let ops = ['*', '/'];
    loop
        invariant
            stepped(*old(stream), *stream),
            stream.pos() > old(stream).pos(),
            start.0 == old(stream).pos(),
            old(stream).wf(),
            ops@ == seq!['*', '/'],
            product_rest(stream.input(), stream.pos(), lhs) == product_at(
                old(stream).input(),
                old(stream).pos(),
            ),
        ensures
            stepped(*old(stream), *stream),
            product_at(old(stream).input(), old(stream).pos()) == Some((lhs, stream.pos())),
        decreases stream.input().len() - stream.pos(),
    {
        let op = match stream.eat_of(ops.as_slice()) {
            Some(op) => op,
            None => {
                break;
            },
        };
        let rhs = match atom(stream) {
            Ok(e) => e,
            Err(e) => {
                stream.rewind(start);
                return Err(e);
            },
        };
        lhs = if op == '*' {
            Expr::Mul(Box::new(lhs), Box::new(rhs))
        } else {
            Expr::Div(Box::new(lhs), Box::new(rhs))
        };
    }
    Ok(lhs)
}

/// What parsing a sum from stream state `a` to `b` with result `r`
/// means: the tree `sum_at` gives and the offset after it, or an error that
/// consumes nothing.
pub open spec fn sum_outcome<'a>(a: ParseStream<'a>, b: ParseStream<'a>, r: Result<Expr>) -> bool {
    &&& match sum_at(a.input(), a.pos()) {
        Some(t) => r == Ok::<Expr, &'static str>(t.0) && b.pos() == t.1,
        None => r is Err && same_state(a, b),
    }
    &&& r is Ok ==> b.pos() > a.pos()
}

/// A sum: products joined by `+` and `-`, folded to the left, so that `*`
/// and `/` bind tighter. Fails, consuming nothing, when a product is missing.
pub fn sum(stream: &mut ParseStream) -> (r: Result<Expr>)
    requires
        old(stream).wf(),
    ensures
        stepped(*old(stream), *final(stream)),
        sum_outcome(*old(stream), *final(stream), r),
{
    let start = stream.snapshot();
    let mut lhs = match product(stream) {
        Ok(e) => e,
        Err(e) => {
            return Err(e);
        },
    };
    let ops = ['+', '-'];
    loop
        invariant
            stepped(*old(stream), *stream),
            stream.pos() > old(stream).pos(),
            start.0 == old(stream).pos(),
            old(stream).wf(),
            ops@ == seq!['+', '-'],
            sum_rest(stream.input(), stream.pos(), lhs) == sum_at(
                old(stream).input(),
                old(stream).pos(),
            ),
        ensures
            stepped(*old(stream), *stream),
            sum_at(old(stream).input(), old(stream).pos()) == Some((lhs, stream.pos())),
        decreases stream.input().len() - stream.pos(),
    {
        let op = match stream.eat_of(ops.as_slice()) {
            Some(op) => op,
            None => {
                break;
            },
        };
        let rhs = match product(stream) {
            Ok(e) => e,
            Err(e) => {
                stream.rewind(start);
                return Err(e);
            },
        };
        lhs = if op == '+' {
            Expr::Add(Box::new(lhs), Box::new(rhs))
        } else {
            Expr::Sub(Box::new(lhs), Box::new(rhs))
        };
    }
    Ok(lhs)
}

impl Parse for Expr {
    /// The expression is a sum.
    fn parse(stream: &mut ParseStream) -> (r: Result<Expr>)
        ensures
            sum_outcome(*old(stream), *final(stream), r),
    {
        sum(stream)
    }
}

} // verus!
