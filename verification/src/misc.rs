use embedded_graphics::mono_font::{iso_8859_1, MonoFont};
use vstd::prelude::*;

verus! {

/// `embedded_graphics::mono_font::MonoFont`, a monospaced bitmap font;
/// opaque here.
#[verifier::external_type_specification]
#[verifier::external_body]
pub struct ExMonoFont<'a>(MonoFont<'a>);

/// The size of one character cell of `font`, width then height, in pixels
/// (the font's `character_size` field).
pub uninterp spec fn character_size(font: MonoFont<'static>) -> (u32, u32);

/// `iso_8859_1::FONT_4X6`, whose source sets a 4 by 6 character cell.
#[verifier::external_body]
fn font_4x6() -> (f: &'static MonoFont<'static>)
    ensures
        character_size(*f) == (4u32, 6u32),
{
    &iso_8859_1::FONT_4X6
}

/// `iso_8859_1::FONT_5X7`, whose source sets a 5 by 7 character cell.
#[verifier::external_body]
fn font_5x7() -> (f: &'static MonoFont<'static>)
    ensures
        character_size(*f) == (5u32, 7u32),
{
    &iso_8859_1::FONT_5X7
}

/// `iso_8859_1::FONT_6X9`, whose source sets a 6 by 9 character cell.
#[verifier::external_body]
fn font_6x9() -> (f: &'static MonoFont<'static>)
    ensures
        character_size(*f) == (6u32, 9u32),
{
    &iso_8859_1::FONT_6X9
}

/// `iso_8859_1::FONT_7X13`, whose source sets a 7 by 13 character cell.
#[verifier::external_body]
fn font_7x13() -> (f: &'static MonoFont<'static>)
    ensures
        character_size(*f) == (7u32, 13u32),
{
    &iso_8859_1::FONT_7X13
}

/// `iso_8859_1::FONT_8X13`, whose source sets an 8 by 13 character cell.
#[verifier::external_body]
fn font_8x13() -> (f: &'static MonoFont<'static>)
    ensures
        character_size(*f) == (8u32, 13u32),
{
    &iso_8859_1::FONT_8X13
}

/// `iso_8859_1::FONT_9X15`, whose source sets a 9 by 15 character cell.
#[verifier::external_body]
fn font_9x15() -> (f: &'static MonoFont<'static>)
    ensures
        character_size(*f) == (9u32, 15u32),
{
    &iso_8859_1::FONT_9X15
}

/// `iso_8859_1::FONT_10X20`, whose source sets a 10 by 20 character cell.
#[verifier::external_body]
fn font_10x20() -> (f: &'static MonoFont<'static>)
    ensures
        character_size(*f) == (10u32, 20u32),
{
    &iso_8859_1::FONT_10X20
}

/// Text sizes for the display, by the height class of their font.
#[derive(PartialEq, Eq, Structural, Clone, Copy, Debug)]
pub enum FontSize {
    H4,
    H5,
    H6,
    H7,
    H8,
    H9,
    H10,
}

impl FontSize {
    /// The character cell, width then height, of the regular-weight
    /// ISO 8859-1 font that each size stands for.
    pub open spec fn cell(self) -> (u32, u32) {
        match self {
            FontSize::H4 => (4, 6),
            FontSize::H5 => (5, 7),
            FontSize::H6 => (6, 9),
            FontSize::H7 => (7, 13),
            FontSize::H8 => (8, 13),
            FontSize::H9 => (9, 15),
            FontSize::H10 => (10, 20),
        }
    }

    /// The rank of the size among the sizes, smallest first: `H4` is 4,
    /// `H10` is 10.
    pub open spec fn rank(self) -> nat {
        match self {
            FontSize::H4 => 4,
            FontSize::H5 => 5,
            FontSize::H6 => 6,
            FontSize::H7 => 7,
            FontSize::H8 => 8,
            FontSize::H9 => 9,
            FontSize::H10 => 10,
        }
    }

    /// The ISO 8859-1 font for this size.
    pub fn to_font(&self) -> (f: &'static MonoFont<'static>)
        ensures
            character_size(*f) == self.cell(),
            *self == FontSize::H4 ==> character_size(*f) == (4u32, 6u32),
            *self == FontSize::H5 ==> character_size(*f) == (5u32, 7u32),
            *self == FontSize::H6 ==> character_size(*f) == (6u32, 9u32),
            *self == FontSize::H7 ==> character_size(*f) == (7u32, 13u32),
            *self == FontSize::H8 ==> character_size(*f) == (8u32, 13u32),
            *self == FontSize::H9 ==> character_size(*f) == (9u32, 15u32),
            *self == FontSize::H10 ==> character_size(*f) == (10u32, 20u32),
    {
        match self {
            FontSize::H4 => font_4x6(),
            FontSize::H5 => font_5x7(),
            FontSize::H6 => font_6x9(),
            FontSize::H7 => font_7x13(),
            FontSize::H8 => font_8x13(),
            FontSize::H9 => font_9x15(),
            FontSize::H10 => font_10x20(),
        }
    }
}

/// Law: the character cell of size `H<k>` is `k` pixels wide, and a larger
/// size never has a smaller cell: wider, and at least as tall.
pub proof fn lemma_cells_grow(a: FontSize, b: FontSize)
    ensures
        a.cell().0 == a.rank(),
        a.cell().1 > a.cell().0,
        a.rank() < b.rank() ==> a.cell().0 < b.cell().0 && a.cell().1 <= b.cell().1,
        a.cell() == b.cell() ==> a == b,
{
}

} // verus!
