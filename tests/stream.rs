use syntax_rs::grammar::{Ident, LitInt};
use syntax_rs::parse::{exhaustive_parse, parse, parse_stream, ParseStream, Result};
use syntax_rs::span::Span;

fn chars(s: &str) -> Vec<char> {
    s.chars().collect()
}

#[test]
fn failed_attempt_restores_position_and_spans() {
    let input = chars("abc def");
    let mut stream = ParseStream::new(&input);
    stream.advance();
    let outer = stream.push_span();
    let r: Result<()> = stream.try_parse(|s: &mut ParseStream| {
        s.advance();
        let _inner = s.push_span();
        s.advance();
        Err("Expected something else.")
    });
    assert_eq!(r, Err("Expected something else."));
    assert_eq!(stream.snapshot().index(), 1);
    let span = outer.into_inner(&mut stream);
    assert_eq!(span, Span { begin: 1, end: 1 });
}

#[test]
fn successful_attempt_keeps_consumption() {
    let input = chars("abc");
    let mut stream = ParseStream::new(&input);
    let r = stream.virtual_parse(|s: &mut ParseStream| -> Result<char> {
        s.advance();
        s.advance().ok_or("Expected a value.")
    });
    assert_eq!(r, Ok('b'));
    assert_eq!(stream.snapshot().index(), 2);
    let r: Result<char> = stream.rewinds(|s: &mut ParseStream| {
        s.advance();
        Err("no")
    });
    assert_eq!(r, Err("no"));
    assert_eq!(stream.peek(), Some('c'));
}

#[test]
fn try_step_moves_to_returned_cursor() {
    let input = chars("xyz");
    let mut stream = ParseStream::new(&input);
    let r = stream.try_step(|mut c| {
        let a = c.advance().ok_or("Expected a value.")?;
        Ok((a, c))
    });
    assert_eq!(r, Ok('x'));
    assert_eq!(stream.peek(), Some('y'));
    let r: Result<char> = stream.try_step(|mut c| {
        c.advance();
        Err("Expected nothing.")
    });
    assert_eq!(r, Err("Expected nothing."));
    assert_eq!(stream.peek(), Some('y'));
}

#[test]
fn nested_spans_follow_the_position() {
    let input = chars("abcd");
    let mut stream = ParseStream::new(&input);
    let outer = stream.push_span();
    stream.advance();
    let inner = stream.push_span();
    stream.advance();
    stream.advance();
    let inner_span = inner.into_inner(&mut stream);
    stream.advance();
    let outer_span = outer.into_inner(&mut stream);
    assert_eq!(inner_span, Span { begin: 1, end: 3 });
    assert_eq!(outer_span, Span { begin: 0, end: 4 });
}

#[test]
fn sibling_spans_are_adjacent() {
    let input = chars("abcde");
    let mut stream = ParseStream::new(&input);
    let first = stream.snapshot();
    stream.cur().advance_n(2);
    let a = stream.since(first);
    let second = stream.snapshot();
    stream.cur().advance_n(3);
    let b = stream.since(second);
    assert_eq!(a.end - a.begin, 2);
    assert_eq!(b.end - b.begin, 3);
    assert_eq!(b.begin, a.end);
}

#[test]
fn only_whitespace_input_parses_to_nothing() {
    let r: Result<Vec<LitInt>> = exhaustive_parse(" \t\n  ");
    assert_eq!(r.map(|v| v.len()), Ok(0));
    let r: Result<Vec<LitInt>> = exhaustive_parse("");
    assert_eq!(r.map(|v| v.len()), Ok(0));
}

#[test]
fn exhaustive_parse_stops_at_first_error() {
    let input = chars("12x");
    let mut stream = ParseStream::new(&input);
    let r = stream.exhaustive_parse::<LitInt>();
    assert_eq!(r.map(|v| v.len()), Err("Expected integer."));
}

#[test]
fn stream_helpers() {
    let input = chars("+-ab  c");
    let mut stream = parse_stream(&input);
    assert!(stream.eats('+'));
    assert!(!stream.eats('+'));
    assert!(stream.eats_of(&['*', '-']));
    assert_eq!(stream.eat_of(&['x', 'b']), None);
    assert_eq!(stream.eat_of(&['x', 'a']), Some('a'));
    assert_eq!(stream.advance_if(|c| c == 'b'), Some('b'));
    assert!(!stream.is_only_whitespaces());
    assert!(stream.skip_all(|c| c == ' '));
    assert!(!stream.skip_all(|c| c == ' '));
    assert_eq!(stream.string_while(|c| c != ' '), "c");
    assert!(stream.is_empty());
    assert!(stream.is_only_whitespaces());
    let snap = syntax_rs::span::Snapshot(2);
    stream.rewind(snap);
    assert_eq!(stream.peek(), Some('a'));
    let empty = ParseStream::empty();
    assert!(empty.is_empty());
}

#[test]
fn parse_from_str() {
    let r: Result<Ident> = parse("héllo world");
    let id = r.unwrap();
    assert_eq!(id.string, "héllo");
    assert_eq!(id.span, Span { begin: 0, end: 5 });
}

struct Nothing;

impl syntax_rs::Parse for Nothing {
    fn parse(_stream: &mut ParseStream) -> Result<Nothing> {
        Ok(Nothing)
    }
}

#[test]
fn entity_that_consumes_nothing_is_rejected() {
    let input = chars("abc");
    let mut stream = ParseStream::new(&input);
    let r = stream.exhaustive_parse::<Nothing>();
    assert_eq!(r.map(|v| v.len()), Err("Expected the parsed entity to consume input."));
}
