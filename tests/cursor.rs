use syntax_rs::cursor::Cursor;

fn chars(s: &str) -> Vec<char> {
    s.chars().collect()
}

#[test]
fn peek_does_not_move() {
    let input = chars("ab");
    let c = Cursor::new(&input);
    assert_eq!(c.peek0(), Some('a'));
    assert_eq!(c.index(), 0);
    assert!(!c.is_empty());
}

#[test]
fn peek_n_counts_from_position() {
    let input = chars("abcd");
    let mut c = Cursor::new(&input);
    c.advance();
    assert_eq!(c.peek_n(2), Some(&input[1..3]));
    assert_eq!(c.peek_n(3), Some(&input[1..4]));
    assert_eq!(c.peek_n(4), None);
    assert_eq!(c.peek_n(usize::MAX), None);
    assert_eq!(c.index(), 1);
}

#[test]
fn peek_range_counts_from_position() {
    let input = chars("abcd");
    let mut c = Cursor::new(&input);
    c.advance();
    assert_eq!(c.peek_range(1), Some(&input[1..2]));
    assert_eq!(c.peek_range(3), Some(&input[1..4]));
    assert_eq!(c.peek_range(0), Some(&input[1..1]));
    assert_eq!(c.peek_range(4), None);
    assert_eq!(c.index(), 1);
}

#[test]
fn consume_advances_only_on_match() {
    let input = chars("-7");
    let mut c = Cursor::new(&input);
    assert!(!c.consume('+'));
    assert_eq!(c.index(), 0);
    assert!(c.consume('-'));
    assert_eq!(c.index(), 1);
    assert_eq!(c.peek0(), Some('7'));
}

#[test]
fn advance_to_end() {
    let input = chars("x");
    let mut c = Cursor::new(&input);
    assert_eq!(c.advance(), Some('x'));
    assert!(c.is_empty());
    assert_eq!(c.advance(), None);
    assert_eq!(c.index(), 1);
}

#[test]
fn advance_n_is_all_or_nothing() {
    let input = chars("abc");
    let mut c = Cursor::new(&input);
    assert_eq!(c.advance_n(4), None);
    assert_eq!(c.index(), 0);
    assert_eq!(c.advance_n(2), Some(&input[0..2]));
    assert_eq!(c.index(), 2);
    assert_eq!(c.advance_n(0), Some(&input[2..2]));
}

#[test]
fn advance_while_stops_before_rejected_value() {
    let input = chars("123ab");
    let mut c = Cursor::new(&input);
    let digits = c.advance_while(|ch| ch.is_ascii_digit());
    assert_eq!(digits, &input[0..3]);
    assert_eq!(c.index(), 3);
    assert_eq!(c.peek0(), Some('a'));
}

#[test]
fn advance_while_rejecting_first_value_moves_nothing() {
    let input = chars("abc");
    let mut c = Cursor::new(&input);
    let taken = c.advance_while(|ch| ch.is_ascii_digit());
    assert!(taken.is_empty());
    assert_eq!(c.index(), 0);
}

#[test]
fn position_never_decreases_under_forward_operations() {
    let input = chars("ab12 cd");
    let mut c = Cursor::new(&input);
    let mut last = c.index();
    let mut check = |c: &Cursor| {
        assert!(c.index() >= last);
        assert!(c.index() <= input.len());
        last = c.index();
    };
    c.consume('a');
    check(&c);
    c.consume('z');
    check(&c);
    c.advance();
    check(&c);
    c.advance_while(|ch| ch.is_ascii_digit());
    check(&c);
    c.advance_n(10);
    check(&c);
    c.advance_n(3);
    check(&c);
    c.advance();
    check(&c);
    c.advance();
    check(&c);
}

#[test]
fn iter_reads_rest_without_moving() {
    let input = chars("abc");
    let mut c = Cursor::new(&input);
    c.advance();
    let mut it = c.iter();
    assert_eq!(it.next(), Some('b'));
    assert_eq!(it.next(), Some('c'));
    assert_eq!(it.next(), None);
    assert_eq!(c.index(), 1);
}

#[test]
fn debug_description() {
    let input = chars("ab\"c");
    let c = Cursor::new(&input);
    assert_eq!(c.debug_string(), "Cursor(\"ab\\\"c\")");
    let input = chars("xabcdefghijklmnopqrst");
    let mut c = Cursor::new(&input);
    c.advance();
    assert_eq!(c.debug_string(), "Cursor(\"abcdefghijklmnop\" and 4 more..)");
    c.advance_n(20);
    assert_eq!(c.debug_string(), "Cursor(\"\")");
}
