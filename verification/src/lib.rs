//! Page-level PDF content interpretation and layout reconstruction.
//!
//! Given the operators of a page's content stream, its fonts and its external
//! objects, the library reproduces the page's visible geometry: runs of text
//! with their boxes, images with their records, path segments, and layouts
//! that cluster runs into blocks of text and attach captions to figures. It
//! also cuts rectangles out of a rendered page.
//!
//! All geometry is computed in decimal fixed-point numbers ([`fixed::Fixed`])
//! with exactly specified rounding, so that every result is stated by a
//! contract and proved.

pub mod ai;
pub mod caption;
pub mod error;
pub mod figures;
pub mod fixed;
pub mod font;
pub mod geometry;
pub mod graphics;
pub mod imaging;
pub mod layout;
pub mod ops;
pub mod ordering;
pub mod page;
pub mod paths;
pub mod region;
pub mod strings;
pub mod text;
pub mod trace;
