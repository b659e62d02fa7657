//! Terminal cells as curses draws them: a character with a color pair in
//! the attribute bits.

use vstd::prelude::*;

use pancurses::ToChtype;

verus! {

/// The cell that shows `c` in color pair `pair`: the character's code point,
/// with the pair number (taken as an `i16`, widened to 32 bits) shifted into
/// the color bits from bit 8 up.
pub open spec fn curses_cell(c: char, pair: u32) -> u32 {
    (c as u32) | (((pair as i16) as u32) << 8u32)
}

/// `ToChtype::to_chtype` of pancurses for a `char`: the character's code
/// point as a cell value.
#[verifier::external_body]
fn char_chtype(c: char) -> (cell: u32)
    ensures
        cell == c as u32,
{
    c.to_chtype()
}

/// `pancurses::COLOR_PAIR` (the ncurses build): the pair number taken as an
/// `i16`, widened to 32 bits and shifted left by 8, so that it lands in the
/// color bits of a cell.
#[verifier::external_body]
fn color_pair_attribute(pair: u32) -> (attribute: u32)
    ensures
        attribute == ((pair as i16) as u32) << 8u32,
{
    pancurses::COLOR_PAIR(pair)
}

/// The cell that shows `c` in color pair `pair`.
pub fn cell_with_pair(c: char, pair: u32) -> (cell: u32)
    ensures
        cell == curses_cell(c, pair),
{
    char_chtype(c) | color_pair_attribute(pair)
}

} // verus!
