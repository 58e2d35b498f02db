//! The characters that can be written on the LEDs: the ten digits and the
//! colon, eight dots wide and eight high.

use vstd::prelude::*;

verus! {

/// The eight rows of the character `c`, top row first, or `None` where the
/// font has no such character. In a row, bit 0 is the leftmost dot.
pub open spec fn glyph(c: char) -> Option<Seq<u8>> {
    if c == '0' {
        Some(seq![0x3Eu8, 0x63u8, 0x73u8, 0x7Bu8, 0x6Fu8, 0x67u8, 0x3Eu8, 0x00u8])
    } else if c == '1' {
        Some(seq![0x0Cu8, 0x0Eu8, 0x0Cu8, 0x0Cu8, 0x0Cu8, 0x0Cu8, 0x3Fu8, 0x00u8])
    } else if c == '2' {
        Some(seq![0x1Eu8, 0x33u8, 0x30u8, 0x1Cu8, 0x06u8, 0x33u8, 0x3Fu8, 0x00u8])
    } else if c == '3' {
        Some(seq![0x1Eu8, 0x33u8, 0x30u8, 0x1Cu8, 0x30u8, 0x33u8, 0x1Eu8, 0x00u8])
    } else if c == '4' {
        Some(seq![0x38u8, 0x3Cu8, 0x36u8, 0x33u8, 0x7Fu8, 0x30u8, 0x78u8, 0x00u8])
    } else if c == '5' {
        Some(seq![0x3Fu8, 0x03u8, 0x1Fu8, 0x30u8, 0x30u8, 0x33u8, 0x1Eu8, 0x00u8])
    } else if c == '6' {
        Some(seq![0x1Cu8, 0x06u8, 0x03u8, 0x1Fu8, 0x33u8, 0x33u8, 0x1Eu8, 0x00u8])
    } else if c == '7' {
        Some(seq![0x3Fu8, 0x33u8, 0x30u8, 0x18u8, 0x0Cu8, 0x0Cu8, 0x0Cu8, 0x00u8])
    } else if c == '8' {
        Some(seq![0x1Eu8, 0x33u8, 0x33u8, 0x1Eu8, 0x33u8, 0x33u8, 0x1Eu8, 0x00u8])
    } else if c == '9' {
        Some(seq![0x1Eu8, 0x33u8, 0x33u8, 0x3Eu8, 0x30u8, 0x18u8, 0x0Eu8, 0x00u8])
    } else if c == ':' {
        Some(seq![0x00u8, 0x0Cu8, 0x0Cu8, 0x00u8, 0x00u8, 0x0Cu8, 0x0Cu8, 0x00u8])
    } else {
        None
    }
}

/// Whether the dot in column `col` of `row` is set.
pub open spec fn dot(row: u8, col: u8) -> bool {
    (row >> col) & 1 == 1
}

/// The eight rows of the character `c`, top row first.
pub(crate) fn glyph_rows(c: char) -> (rows: Option<[u8; 8]>)
    ensures
        match rows {
            Some(r) => glyph(c) == Some(r@),
            None => glyph(c) is None,
        },
{
    let rows: [u8; 8] = if c == '0' {
        [0x3E, 0x63, 0x73, 0x7B, 0x6F, 0x67, 0x3E, 0x00]
    } else if c == '1' {
        [0x0C, 0x0E, 0x0C, 0x0C, 0x0C, 0x0C, 0x3F, 0x00]
    } else if c == '2' {
        [0x1E, 0x33, 0x30, 0x1C, 0x06, 0x33, 0x3F, 0x00]
    } else if c == '3' {
        [0x1E, 0x33, 0x30, 0x1C, 0x30, 0x33, 0x1E, 0x00]
    } else if c == '4' {
        [0x38, 0x3C, 0x36, 0x33, 0x7F, 0x30, 0x78, 0x00]
    } else if c == '5' {
        [0x3F, 0x03, 0x1F, 0x30, 0x30, 0x33, 0x1E, 0x00]
    } else if c == '6' {
        [0x1C, 0x06, 0x03, 0x1F, 0x33, 0x33, 0x1E, 0x00]
    } else if c == '7' {
        [0x3F, 0x33, 0x30, 0x18, 0x0C, 0x0C, 0x0C, 0x00]
    } else if c == '8' {
        [0x1E, 0x33, 0x33, 0x1E, 0x33, 0x33, 0x1E, 0x00]
    } else if c == '9' {
        [0x1E, 0x33, 0x33, 0x3E, 0x30, 0x18, 0x0E, 0x00]
    } else if c == ':' {
        [0x00, 0x0C, 0x0C, 0x00, 0x00, 0x0C, 0x0C, 0x00]
    } else {
        return None;
    };
    assert(glyph(c)->0 =~= rows@);
    Some(rows)
}

/// Whether the dot in column `col` of `row` is set.
pub(crate) fn dot_set(row: u8, col: u8) -> (b: bool)
    requires
        col < 8,
    ensures
        b == dot(row, col),
{
    (row >> col) & 1 == 1
}

} // verus!
