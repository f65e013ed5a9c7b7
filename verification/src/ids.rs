//! Fresh identifiers.

use vstd::prelude::*;

verus! {

/// Whether a character is a hexadecimal digit, letters in lower case.
pub open spec fn is_hex_digit(c: char) -> bool {
    ('0' <= c <= '9') || ('a' <= c <= 'f')
}

/// Whether a place in the text of an identifier is that of a hyphen.
pub open spec fn hyphen_place(i: int) -> bool {
    i == 8 || i == 13 || i == 18 || i == 23
}

/// Whether a text is a random identifier: five groups of hexadecimal digits, with the marks of
/// version 4.
pub open spec fn is_random_id(text: Seq<char>) -> bool {
    &&& text.len() == 36
    &&& forall|i: int|
        0 <= i < 36 ==> if hyphen_place(i) {
            #[trigger] text[i] == '-'
        } else {
            is_hex_digit(text[i])
        }
    &&& text[14] == '4'
    &&& text[19] == '8' || text[19] == '9' || text[19] == 'a' || text[19] == 'b'
}

/// `Uuid::new_v4` makes a random identifier and `to_string` writes it with hyphens, in lower
/// case. Nothing is claimed of which identifier it is, not even that it is new.
#[verifier::external_body]
fn fresh_id() -> (id: String)
    ensures
        is_random_id(id@),
{
    uuid::Uuid::new_v4().to_string()
}

/// A fresh random identifier.
pub fn new_id() -> (id: String)
    ensures
        is_random_id(id@),
{
    fresh_id()
}

/// Whether a text is an identifier that drawing a fresh one can give.
pub open spec fn was_drawn(id: Seq<char>) -> bool {
    exists|text: String| #[trigger] call_ensures(new_id, (), text) && text@ == id
}

} // verus!
