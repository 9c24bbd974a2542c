//! The text form of a commit identifier.
//!
//! A pin file carries identifiers as hexadecimal text. Two shapes matter:
//! the text that is accepted when a pin is read back, and the canonical text
//! that is written when a pin is taken.

use vstd::prelude::*;

verus! {

/// The number of hexadecimal digits in a canonical commit identifier.
pub const IDENTIFIER_DIGITS: usize = 40;

/// Whether `c` is a hexadecimal digit, in either case.
pub open spec fn is_hex_digit(c: char) -> bool {
    ('0' <= c && c <= '9') || ('a' <= c && c <= 'f') || ('A' <= c && c <= 'F')
}

/// Whether `c` is a hexadecimal digit as canonical identifiers use them:
/// a decimal digit or a lower-case letter.
pub open spec fn is_lower_hex_digit(c: char) -> bool {
    ('0' <= c && c <= '9') || ('a' <= c && c <= 'f')
}

/// Whether `text` has the form of a commit identifier: between one and
/// forty hexadecimal digits and nothing else.
///
/// This is a check of form only. It says nothing about whether a commit
/// with that identifier exists anywhere.
pub open spec fn is_identifier_text(text: Seq<char>) -> bool {
    &&& 1 <= text.len() <= IDENTIFIER_DIGITS
    &&& forall|i: int| 0 <= i < text.len() ==> is_hex_digit(#[trigger] text[i])
}

/// Whether `text` is a canonical commit identifier: exactly forty
/// lower-case hexadecimal digits.
pub open spec fn is_canonical_identifier(text: Seq<char>) -> bool {
    &&& text.len() == IDENTIFIER_DIGITS
    &&& forall|i: int| 0 <= i < text.len() ==> is_lower_hex_digit(#[trigger] text[i])
}

/// Every canonical identifier has the form of an identifier.
pub proof fn lemma_canonical_is_identifier_text(text: Seq<char>)
    requires
        is_canonical_identifier(text),
    ensures
        is_identifier_text(text),
{
    assert forall|i: int| 0 <= i < text.len() implies is_hex_digit(#[trigger] text[i]) by {
        assert(is_lower_hex_digit(text[i]));
    }
}

/// Text in the form of an identifier holds neither the field separator nor
/// a line break.
pub proof fn lemma_identifier_text_is_plain(text: Seq<char>)
    requires
        is_identifier_text(text),
    ensures
        text.len() > 0,
        !text.contains(':'),
        !text.contains('\n'),
        !text.contains('\r'),
{
    assert forall|i: int| 0 <= i < text.len() implies text[i] != ':' && text[i] != '\n'
        && text[i] != '\r' by {
        assert(is_hex_digit(text[i]));
    }
}

} // verus!
