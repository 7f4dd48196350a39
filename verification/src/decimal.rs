//! Fractional numbers in their exact wire form.
//!
//! The protocol is textual: every fractional parameter travels as decimal
//! text (`-12.5`, `0.01`, `1200`). The engine never does arithmetic on
//! these values, it only formats, forwards and sign-checks them, so the
//! library carries them verbatim as validated text and leaves binary
//! float conversion to the presentation layer.

use vstd::prelude::*;
use crate::text;

verus! {

/// A well-formed decimal number: optional `-`, digits, optional `.` and
/// more digits. The view is the character sequence itself.
#[derive(Debug, Clone)]
pub struct Decimal {
    text: String,
}

impl View for Decimal {
    type V = Seq<char>;

    closed spec fn view(&self) -> Seq<char> {
        self.text@
    }
}

impl Decimal {
    /// Every constructed value holds text of this shape.
    pub open spec fn wf(&self) -> bool {
        text::is_decimal(self@)
    }

    /// Validates `text` as a decimal number and takes it verbatim.
    pub fn from_text(text: String) -> (r: Option<Decimal>)
        ensures
            r is Some <==> text::is_decimal(text@),
            r is Some ==> r.unwrap()@ == text@ && r.unwrap().wf(),
    {
        if text::decimal_str(text.as_str()) {
            Some(Decimal { text })
        } else {
            None
        }
    }

    /// The wire text of the number.
    pub fn as_text(&self) -> (r: &str)
        ensures
            r@ == self@,
    {
        self.text.as_str()
    }

    /// A copy with the same text.
    pub fn duplicate(&self) -> (r: Decimal)
        ensures
            r@ == self@,
    {
        Decimal { text: self.text.clone() }
    }

    /// Whether the denoted value is zero or negative.
    pub fn nonpositive(&self) -> (r: bool)
        ensures
            r == text::is_nonpositive_decimal(self@),
    {
        text::nonpositive_decimal_str(self.text.as_str())
    }
}

} // verus!
