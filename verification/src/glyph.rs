//! Trusted boundary to the CP437 glyph table.

use vstd::prelude::*;

verus! {

/// The CP437 code point that the glyph table assigns to a character.
pub uninterp spec fn cp437_of(c: char) -> u16;

/// Relies on rltk::to_cp437: maps a character to its CP437 code point (0 when
/// the character has no CP437 equivalent), a fixed function of the character
/// alone.
#[verifier::external_body]
pub(crate) fn to_cp437(c: char) -> (r: u16)
    ensures
        r == cp437_of(c),
{
    rltk::to_cp437(c)
}

} // verus!
