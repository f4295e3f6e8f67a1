use vstd::prelude::*;
use unicode_xid::UnicodeXID;

verus! {

/// Whether `c` has the Unicode `XID_Start` property.
pub uninterp spec fn xid_start(c: char) -> bool;

/// Whether `c` has the Unicode `XID_Continue` property.
pub uninterp spec fn xid_continue(c: char) -> bool;

/// ASCII letters.
pub open spec fn ascii_letter(c: char) -> bool {
    ('a' <= c && c <= 'z') || ('A' <= c && c <= 'Z')
}

/// ASCII letters, digits and `_`.
pub open spec fn ascii_word(c: char) -> bool {
    ascii_letter(c) || ('0' <= c && c <= '9') || c == '_'
}

/// The Unicode `White_Space` code points.
pub open spec fn whitespace(c: char) -> bool {
    ||| c == '\u{0009}'
    ||| c == '\u{000A}'
    ||| c == '\u{000B}'
    ||| c == '\u{000C}'
    ||| c == '\u{000D}'
    ||| c == '\u{0020}'
    ||| c == '\u{0085}'
    ||| c == '\u{00A0}'
    ||| c == '\u{1680}'
    ||| '\u{2000}' <= c && c <= '\u{200A}'
    ||| c == '\u{2028}'
    ||| c == '\u{2029}'
    ||| c == '\u{202F}'
    ||| c == '\u{205F}'
    ||| c == '\u{3000}'
}

/// Relies on `unicode_xid::UnicodeXID::is_xid_start` for `char`: the
/// `XID_Start` property; its source answers ASCII by the letters alone.
#[verifier::external_body]
fn xid_start_of(c: char) -> (r: bool)
    ensures
        r == xid_start(c),
        c <= '\u{7F}' ==> r == ascii_letter(c),
{
    UnicodeXID::is_xid_start(c)
}

/// Relies on `unicode_xid::UnicodeXID::is_xid_continue` for `char`: the
/// `XID_Continue` property; its source answers ASCII by letters, digits and
/// `_` alone.
#[verifier::external_body]
fn xid_continue_of(c: char) -> (r: bool)
    ensures
        r == xid_continue(c),
        c <= '\u{7F}' ==> r == ascii_word(c),
{
    UnicodeXID::is_xid_continue(c)
}

/// Whether `val` is Unicode white space.
pub fn is_whitespace(val: char) -> (r: bool)
    ensures
        r == whitespace(val),
{
    val == '\u{0009}' || val == '\u{000A}' || val == '\u{000B}' || val == '\u{000C}' || val
        == '\u{000D}' || val == '\u{0020}' || val == '\u{0085}' || val == '\u{00A0}' || val
        == '\u{1680}' || ('\u{2000}' <= val && val <= '\u{200A}') || val == '\u{2028}' || val
        == '\u{2029}' || val == '\u{202F}' || val == '\u{205F}' || val == '\u{3000}'
}

/// Whether `val` may start an identifier.
pub fn is_xid_start(val: char) -> (r: bool)
    ensures
        r == xid_start(val),
        val <= '\u{7F}' ==> r == ascii_letter(val),
{
    xid_start_of(val)
}

/// Whether `val` may continue an identifier.
pub fn is_xid_continue(val: char) -> (r: bool)
    ensures
        r == xid_continue(val),
        val <= '\u{7F}' ==> r == ascii_word(val),
{
    xid_continue_of(val)
}

/// The character classes a grammar needs from Unicode.
pub trait UnicodeSpec {
    fn is_xid_start(&self) -> bool;

    fn is_xid_continue(&self) -> bool;

    fn is_whitespace(&self) -> bool;
}

impl UnicodeSpec for char {
    fn is_xid_start(&self) -> bool {
        is_xid_start(*self)
    }

    fn is_xid_continue(&self) -> bool {
        is_xid_continue(*self)
    }

    fn is_whitespace(&self) -> bool {
        is_whitespace(*self)
    }
}

} // verus!
