//! The bitmap font: `font8x8`'s glyphs for the basic Latin characters.
//!
//! Nothing in this file is proved: it states what the lookup in the font
//! returns.

use vstd::prelude::*;
use font8x8::UnicodeFonts;

verus! {

/// The bitmap that `font8x8::BASIC_FONTS` holds for `c`, if it holds one:
/// one byte for each row from the top, bit 0 for the leftmost pixel.
pub uninterp spec fn basic_glyph(c: char) -> Option<[u8; 8]>;

/// Calls `UnicodeFonts::get` on `font8x8::BASIC_FONTS`: a search for `c` in
/// the font's table, which holds one bitmap for each character from U+0000
/// to U+007F and no other.
#[verifier::external_body]
pub(crate) fn lookup_glyph(c: char) -> (glyph: Option<[u8; 8]>)
    ensures
        glyph == basic_glyph(c),
        glyph.is_some() <==> c as u32 <= 0x7f,
{
    font8x8::BASIC_FONTS.get(c)
}

} // verus!
