use syntax_rs::grammar::{
    product, sum, uint, Expr, Ident, LineBreak, LitInt, LitStr, Literal, Punctuation, Quote, Symbol,
    Token,
};
use syntax_rs::parse::{exhaustive_parse, ParseStream, Result};
use syntax_rs::parse::parse_stream;
use syntax_rs::grammar::parse_linebreak;
use syntax_rs::span::{Span, Spanned};

fn chars(s: &str) -> Vec<char> {
    s.chars().collect()
}

#[test]
fn integer_literal_with_span() {
    let input = chars("42");
    let mut stream = ParseStream::new(&input);
    let start = stream.snapshot();
    let lit = stream.parse::<LitInt>().unwrap();
    assert_eq!(lit.value, 42);
    assert_eq!(stream.since(start), Span { begin: 0, end: 2 });
}

#[test]
fn negative_integer_literal() {
    let input = chars("-7");
    let mut stream = ParseStream::new(&input);
    assert_eq!(stream.parse::<LitInt>(), Ok(LitInt { value: -7 }));
    let input = chars("+15x");
    let mut stream = ParseStream::new(&input);
    assert_eq!(LitInt::parse_lit(&mut stream), Ok(LitInt { value: 15 }));
    assert_eq!(stream.peek(), Some('x'));
}

#[test]
fn quoted_string_literal() {
    let input = chars("\"ab\"");
    let mut stream = ParseStream::new(&input);
    let lit = stream.parse::<LitStr>().unwrap();
    assert_eq!(lit.val, "ab");
    assert!(stream.is_empty());
    assert_eq!(stream.snapshot().index(), 4);
}

#[test]
fn unterminated_string_consumes_nothing() {
    let input = chars("\"ab");
    let mut stream = ParseStream::new(&input);
    let r = LitStr::parse_lit(&mut stream);
    assert_eq!(r.map(|l| l.val), Err("Expected '\"'"));
    assert_eq!(stream.snapshot().index(), 0);
    assert_eq!(Quote::parse_quote(&mut stream), Ok(Quote));
}

#[test]
fn product_binds_tighter_than_sum() {
    let input = chars("1+2*3");
    let mut stream = ParseStream::new(&input);
    let e = stream.parse::<Expr>().unwrap();
    match e {
        Expr::Add(l, r) => {
            assert!(matches!(*l, Expr::UInt(1)));
            match *r {
                Expr::Mul(a, b) => {
                    assert!(matches!(*a, Expr::UInt(2)));
                    assert!(matches!(*b, Expr::UInt(3)));
                }
                other => panic!("expected a product, got {:?}", other),
            }
        }
        other => panic!("expected a sum, got {:?}", other),
    }
    assert!(stream.is_empty());
}

#[test]
fn left_associative_folding() {
    let input = chars("8-2-1");
    let mut stream = ParseStream::new(&input);
    match sum(&mut stream).unwrap() {
        Expr::Sub(l, r) => {
            assert!(matches!(*l, Expr::Sub(_, _)));
            assert!(matches!(*r, Expr::UInt(1)));
        }
        other => panic!("expected a difference, got {:?}", other),
    }
    let input = chars("6/3");
    let mut stream = ParseStream::new(&input);
    assert!(matches!(product(&mut stream), Ok(Expr::Div(_, _))));
}

#[test]
fn dangling_operator_rolls_back() {
    let input = chars("1+");
    let mut stream = ParseStream::new(&input);
    assert!(sum(&mut stream).is_err());
    assert_eq!(stream.snapshot().index(), 0);
}

#[test]
fn empty_input_is_not_an_integer() {
    let input = chars("");
    let mut stream = ParseStream::new(&input);
    assert_eq!(stream.parse::<LitInt>(), Err("Expected integer."));
    assert_eq!(stream.snapshot().index(), 0);
}

#[test]
fn integer_out_of_range() {
    let input = chars("9223372036854775808");
    let mut stream = ParseStream::new(&input);
    assert_eq!(stream.parse::<LitInt>(), Err("Integer literal out of range."));
    assert_eq!(stream.snapshot().index(), 0);
    let input = chars("9223372036854775807");
    let mut stream = ParseStream::new(&input);
    assert_eq!(stream.parse::<LitInt>(), Ok(LitInt { value: i64::MAX }));
    let input = chars("-9223372036854775808");
    let mut stream = ParseStream::new(&input);
    assert_eq!(stream.parse::<LitInt>(), Ok(LitInt { value: i64::MIN }));
    let input = chars("-9223372036854775809");
    let mut stream = ParseStream::new(&input);
    assert_eq!(stream.parse::<LitInt>(), Err("Integer literal out of range."));
    let input = chars("4294967295");
    let mut stream = ParseStream::new(&input);
    assert_eq!(uint(&mut stream), Ok(4294967295));
    let input = chars("4294967296");
    let mut stream = ParseStream::new(&input);
    assert_eq!(uint(&mut stream), Err("Integer literal out of range."));
    assert_eq!(stream.snapshot().index(), 0);
}

#[test]
fn identifiers_separated_by_whitespace() {
    let tokens: Vec<Token> = exhaustive_parse("foo bar").unwrap();
    assert_eq!(tokens.len(), 2);
    let mut seen = Vec::new();
    for t in &tokens {
        match t {
            Token::Symbol(Symbol::Ident(id)) => seen.push((id.string.clone(), id.span())),
            other => panic!("expected an identifier, got {:?}", other),
        }
    }
    assert_eq!(seen[0], ("foo".to_string(), Span { begin: 0, end: 3 }));
    assert_eq!(seen[1], ("bar".to_string(), Span { begin: 4, end: 7 }));
}

#[test]
fn keywords_and_identifiers() {
    let tokens: Vec<Token> = exhaustive_parse("let x if fun").unwrap();
    assert!(matches!(tokens[0], Token::Symbol(Symbol::KwLet)));
    assert!(matches!(tokens[1], Token::Symbol(Symbol::Ident(_))));
    assert!(matches!(tokens[2], Token::Symbol(Symbol::KwIf)));
    assert!(matches!(tokens[3], Token::Symbol(Symbol::KwFunction)));
}

#[test]
fn tokens_of_an_expression() {
    let tokens: Vec<Token> = exhaustive_parse(" 1 * \"s\" / ").unwrap_or_default();
    assert_eq!(tokens.len(), 4);
    assert!(matches!(tokens[0], Token::Literal(Literal::Int(LitInt { value: 1 }))));
    assert!(matches!(tokens[1], Token::Punctuation(Punctuation::Star)));
    assert!(matches!(tokens[2], Token::Literal(Literal::String(_))));
    assert!(matches!(tokens[3], Token::Punctuation(Punctuation::Slash)));
}

#[test]
fn unknown_token_is_an_error() {
    let r: Result<Vec<Token>> = exhaustive_parse("€");
    assert_eq!(r.map(|v| v.len()), Err("Expected punctuation, symbol or literal."));
    let input = chars("?");
    let mut stream = ParseStream::new(&input);
    assert_eq!(Punctuation::parse_punct(&mut stream), Err("Expected `+`, `-`, `*` or `/`."));
    assert!(matches!(Symbol::parse_symbol(&mut stream), Err("Expected identifier, `function`, `let` or `if`.")));
}

#[test]
fn identifier_spans_and_unicode() {
    let input = chars("  été1_ x");
    let mut stream = ParseStream::new(&input);
    stream.skip_all(|c| c == ' ');
    let mut id = Ident::parse_ident(&mut stream).unwrap();
    assert_eq!(id.string, "été1_");
    assert_eq!(id.span, Span { begin: 2, end: 7 });
    *id.span_ref_mut() = Span { begin: 0, end: 0 };
    assert_eq!(id.span(), Span { begin: 0, end: 0 });
    let input = chars("1abc");
    let mut stream = ParseStream::new(&input);
    assert!(matches!(Ident::parse_ident(&mut stream), Err("Expected identifier.")));
}

#[test]
fn line_breaks() {
    let input = chars("\r\n\r\u{0085}\nx");
    let mut stream = parse_stream(&input);
    assert_eq!(stream.parse::<LineBreak>(), Ok(LineBreak::CRLF));
    assert_eq!(parse_linebreak(&mut stream), Ok(LineBreak::CR));
    assert_eq!(parse_linebreak(&mut stream), Ok(LineBreak::NEL));
    assert_eq!(parse_linebreak(&mut stream), Ok(LineBreak::LF));
    assert_eq!(
        parse_linebreak(&mut stream),
        Err("Unrecognized linebreak. Expected CRLF, CR, LF or NEL.")
    );
    assert_eq!(stream.peek(), Some('x'));
}

#[test]
fn neither_literal_kind() {
    let input = chars("x1");
    let mut stream = ParseStream::new(&input);
    assert!(matches!(Literal::parse_literal(&mut stream), Err("Expected integer or str.")));
    assert_eq!(stream.snapshot().index(), 0);
    let input = chars("\"q\"");
    let mut stream = ParseStream::new(&input);
    match stream.parse::<Literal>() {
        Ok(Literal::String(s)) => assert_eq!(s.val, "q"),
        other => panic!("expected a string literal, got {:?}", other),
    }
}
