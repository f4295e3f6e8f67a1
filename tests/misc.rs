use syntax_rs::debug::DebugTap;
use syntax_rs::ringbuf::round_cap;
use syntax_rs::span::{Snapshot, Span};
use syntax_rs::text::{chars_of, same_text, string_of};
use syntax_rs::unicode::{is_whitespace, is_xid_continue, is_xid_start, UnicodeSpec};
use syntax_rs::utf8::{next_code_point, peek_code_point, utf8_is_cont_byte};

#[test]
fn it_works() {
    let result = 2 + 2;
    assert_eq!(result, 4);
}

#[test]
fn whitespace_set() {
    assert!(is_whitespace(' '));
    assert!(is_whitespace('\t'));
    assert!(is_whitespace('\u{3000}'));
    assert!(is_whitespace('\u{2005}'));
    assert!(!is_whitespace('a'));
    assert!(!is_whitespace('\u{200B}'));
    assert!(' '.is_whitespace());
}

#[test]
fn identifier_classes() {
    assert!(is_xid_start('a'));
    assert!(!is_xid_start('1'));
    assert!(!is_xid_start('_'));
    assert!(is_xid_continue('_'));
    assert!(is_xid_continue('9'));
    assert!(is_xid_start('é'));
    assert!(!is_xid_start('€'));
    assert!(UnicodeSpec::is_xid_continue(&'x'));
}

#[test]
fn string_from_chars() {
    let s = string_of(&['a', 'é', 'z']);
    assert_eq!(s, "aéz");
    assert_eq!(string_of(&[]), "");
}

#[test]
fn chars_from_str() {
    assert_eq!(chars_of("a€b"), vec!['a', '€', 'b']);
    assert!(same_text("fun", "fun"));
    assert!(!same_text("fun", "fn"));
    assert!(!same_text("let", "lot"));
}

#[test]
fn snapshot_conversions() {
    let s = Snapshot::from(7usize);
    assert_eq!(s.index(), 7);
    let n: usize = usize::from(Snapshot(3));
    assert_eq!(n, 3);
    let span = Span { begin: 1, end: 4 };
    assert_eq!(span, Span { begin: 1, end: 4 });
}

#[test]
fn utf8_decoding() {
    let bytes = "a€\u{1F600}é".as_bytes();
    let mut i = 0usize;
    assert_eq!(next_code_point(bytes, &mut i), Some('a' as u32));
    assert_eq!(i, 1);
    assert_eq!(peek_code_point(bytes, i), Some(0x20AC));
    assert_eq!(next_code_point(bytes, &mut i), Some(0x20AC));
    assert_eq!(i, 4);
    assert_eq!(next_code_point(bytes, &mut i), Some(0x1F600));
    assert_eq!(i, 8);
    assert_eq!(next_code_point(bytes, &mut i), Some('é' as u32));
    assert_eq!(i, 10);
    assert_eq!(next_code_point(bytes, &mut i), None);
    assert_eq!(i, 10);
}

#[test]
fn utf8_cut_short() {
    let bytes = &"€".as_bytes()[0..2];
    let mut i = 0usize;
    assert_eq!(next_code_point(bytes, &mut i), None);
    assert_eq!(i, 0);
    assert_eq!(peek_code_point(bytes, 0), None);
}

#[test]
fn continuation_bytes() {
    assert!(utf8_is_cont_byte(0x80));
    assert!(utf8_is_cont_byte(0xBF));
    assert!(!utf8_is_cont_byte(0x7F));
    assert!(!utf8_is_cont_byte(0xC0));
}

#[test]
fn ring_capacity_rounding() {
    assert_eq!(round_cap(40, 4096), 4096);
    assert_eq!(round_cap(4096, 4096), 4096);
    assert_eq!(round_cap(4097, 4096), 8192);
    assert_eq!(round_cap(3 * 4096 + 1, 4096), 16384);
    assert_eq!(round_cap(0, 4096), 0);
    assert_eq!(round_cap(5, 3), 6);
}

#[test]
fn tap_hands_value_back() {
    let seen = std::cell::Cell::new(0);
    let v = 41.debug_tap(|x: &i32| seen.set(*x));
    assert_eq!(v, 41);
    assert_eq!(seen.get(), 41);
}
