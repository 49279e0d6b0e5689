//! The presentation settings of `ratatui` that a document carries: their
//! types, held opaquely, and the trusted wrappers that make their defaults.

use ratatui::layout::{Alignment, Position};
use ratatui::style::Style;
use ratatui::widgets::{Block, Wrap};
use vstd::prelude::*;

verus! {

// ---------------------------------------------------------------------
// Types of `ratatui`, carried through as presentation settings.

#[verifier::external_type_specification]
#[verifier::external_body]
pub struct ExBlock<'a>(Block<'a>);

#[verifier::external_type_specification]
#[verifier::external_body]
pub struct ExStyle(Style);

#[verifier::external_type_specification]
#[verifier::external_body]
pub struct ExWrap(Wrap);

#[verifier::external_type_specification]
#[verifier::external_body]
pub struct ExPosition(Position);

#[verifier::external_type_specification]
#[verifier::external_body]
pub struct ExAlignment(Alignment);

// ---------------------------------------------------------------------
// Wrappers of `ratatui`.

/// `Style::default()`; nothing is claimed of the style.
#[verifier::external_body]
pub fn style_default() -> Style {
    Style::default()
}

/// `Position::ORIGIN`; nothing is claimed of the position.
#[verifier::external_body]
pub fn position_origin() -> Position {
    Position::ORIGIN
}

/// `Alignment::Left`; nothing is claimed of the alignment.
#[verifier::external_body]
pub fn alignment_left() -> Alignment {
    Alignment::Left
}

/// `Wrap { trim: true }`; nothing is claimed of the wrapping.
#[verifier::external_body]
pub fn wrap_trimmed() -> Wrap {
    Wrap { trim: true }
}

/// `Block::default()`; nothing is claimed of the block.
#[verifier::external_body]
pub fn block_default<'a>() -> Block<'a> {
    Block::default()
}

/// `Block::clone` (derived): the clone equals the original.
#[verifier::external_body]
pub fn block_clone<'a>(b: &Block<'a>) -> (res: Block<'a>)
    ensures
        res == *b,
{
    b.clone()
}

} // verus!
