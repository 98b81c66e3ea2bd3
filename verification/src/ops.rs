//! The operators of a page's content stream, as far as the page's geometry
//! depends on them.

use crate::fixed::Fixed;
use crate::geometry::{Matrix, Point, Rect};
use crate::imaging::ImageSource;
use vstd::prelude::*;

verus! {

/// One element of a text-showing array: a string to draw, or an adjustment of
/// the position in thousandths of the font size.
#[derive(Debug)]
pub enum TextItem {
    Text(Vec<u8>),
    Spacing(Fixed),
}

/// A content operator with its operands.
#[derive(Debug)]
pub enum Op {
    BeginText,
    EndText,
    SetTextMatrix { matrix: Matrix },
    MoveTextPosition { translation: Point },
    TextNewline,
    TextFont { name: String, size: Fixed },
    CharSpacing { char_space: Fixed },
    WordSpacing { word_space: Fixed },
    TextScaling { horiz_scale: Fixed },
    Leading { leading: Fixed },
    TextRise { rise: Fixed },
    TextDraw { text: Vec<u8> },
    TextDrawAdjusted { array: Vec<TextItem> },
    Save,
    Restore,
    Transform { matrix: Matrix },
    XObject { name: String },
    InlineImage { image: ImageSource },
    MoveTo { p: Point },
    LineTo { p: Point },
    CurveTo { c1: Point, c2: Point, p: Point },
    Rect { rect: Rect },
    Close,
    /// Any operator that leaves the geometry as it is.
    Other,
}

} // verus!
