//! What can go wrong while a page is taken apart, and how it is reported.

use crate::strings::{decimal, push_decimal};
use vstd::prelude::*;
use vstd::string::StringExecFns;

verus! {

/// The colour layout of the samples handed to the PNG encoder.
#[derive(Clone, Copy, Debug, PartialEq, Eq, Structural)]
pub enum PngColor {
    Grayscale,
    Rgb,
    Indexed,
    GrayscaleAlpha,
    Rgba,
}

/// A decoded image whose byte count does not fit its dimensions.
#[derive(Clone, Copy, Debug, PartialEq, Eq, Structural)]
pub enum ImageShapeFault {
    /// The data is not three bytes per pixel, or more than can be encoded.
    Rgb,
    /// The data is not one byte per pixel, or more than can be encoded.
    Grayscale,
}

/// A request for region images that cannot be served.
#[derive(Clone, Copy, Debug, PartialEq, Eq, Structural)]
pub enum RenderFault {
    /// The resolution is not positive.
    InvalidDpi,
    /// The page index is beyond what the renderer can address.
    PageIndexTooLarge,
    /// The page has no positive width or height.
    NonPositivePage,
    /// The resolution is too small to give a positive scale.
    InvalidScale,
    /// The rendered bitmap has no pixels.
    ZeroRendered,
    /// The rectangle of this index lies outside the page.
    OutsidePage(usize),
    /// The rectangle of this index covers no pixel.
    EmptyRegion(usize),
}

/// A failure to set up the native rendering library.
#[derive(Debug)]
pub enum BindingFault {
    /// The shared library could not be loaded; the loader's words.
    LoadLibrary(String),
    /// A symbol is missing from the library; its name.
    LoadFunctionName(String),
    /// Anything else; the library's words.
    Other(String),
}

/// Why an operation on a page failed.
#[derive(Debug)]
pub enum ExtractError {
    /// The document is malformed or a resource could not be resolved; the
    /// parser's words.
    PdfStructure(String),
    /// A decoded image has the wrong size.
    ImageShape(ImageShapeFault),
    /// The rendering request is invalid.
    RenderConfig(RenderFault),
    /// The PNG encoder was asked for a colour layout it does not write.
    UnsupportedPng(PngColor),
    /// The rendering library is not available.
    NativeBinding(BindingFault),
}

/// A failure to set up the rendering library, with its texts as sequences
/// of characters.
pub enum BindingFaultView {
    LoadLibrary(Seq<char>),
    LoadFunctionName(Seq<char>),
    Other(Seq<char>),
}

/// A failure of an operation on a page, with its texts as sequences of
/// characters.
pub enum ExtractErrorView {
    PdfStructure(Seq<char>),
    ImageShape(ImageShapeFault),
    RenderConfig(RenderFault),
    UnsupportedPng(PngColor),
    NativeBinding(BindingFaultView),
}

impl View for BindingFault {
    type V = BindingFaultView;

    open spec fn view(&self) -> BindingFaultView {
        match self {
            BindingFault::LoadLibrary(s) => BindingFaultView::LoadLibrary(s@),
            BindingFault::LoadFunctionName(s) => BindingFaultView::LoadFunctionName(s@),
            BindingFault::Other(s) => BindingFaultView::Other(s@),
        }
    }
}

impl View for ExtractError {
    type V = ExtractErrorView;

    open spec fn view(&self) -> ExtractErrorView {
        match self {
            ExtractError::PdfStructure(s) => ExtractErrorView::PdfStructure(s@),
            ExtractError::ImageShape(f) => ExtractErrorView::ImageShape(*f),
            ExtractError::RenderConfig(f) => ExtractErrorView::RenderConfig(*f),
            ExtractError::UnsupportedPng(c) => ExtractErrorView::UnsupportedPng(*c),
            ExtractError::NativeBinding(f) => ExtractErrorView::NativeBinding(f@),
        }
    }
}

impl PngColor {
    /// The name of the colour layout.
    pub open spec fn name_of(self) -> Seq<char> {
        match self {
            PngColor::Grayscale => "Grayscale"@,
            PngColor::Rgb => "Rgb"@,
            PngColor::Indexed => "Indexed"@,
            PngColor::GrayscaleAlpha => "GrayscaleAlpha"@,
            PngColor::Rgba => "Rgba"@,
        }
    }

    /// Returns the name of the colour layout.
    pub fn name(&self) -> (r: &'static str)
        ensures
            r@ == self.name_of(),
    {
        match self {
            PngColor::Grayscale => "Grayscale",
            PngColor::Rgb => "Rgb",
            PngColor::Indexed => "Indexed",
            PngColor::GrayscaleAlpha => "GrayscaleAlpha",
            PngColor::Rgba => "Rgba",
        }
    }
}

impl ImageShapeFault {
    /// The report of the fault.
    pub open spec fn message_of(self) -> Seq<char> {
        match self {
            ImageShapeFault::Rgb => "unexpected RGB image size"@,
            ImageShapeFault::Grayscale => "unexpected grayscale image size"@,
        }
    }

    /// The report of the fault.
    pub fn message(&self) -> (r: String)
        ensures
            r@ == self.message_of(),
    {
        match self {
            ImageShapeFault::Rgb => String::from_str("unexpected RGB image size"),
            ImageShapeFault::Grayscale => String::from_str("unexpected grayscale image size"),
        }
    }
}

impl RenderFault {
    /// The report of the fault.
    pub open spec fn message_of(self) -> Seq<char> {
        match self {
            RenderFault::InvalidDpi => "dpi must be a positive finite value"@,
            RenderFault::PageIndexTooLarge => "page_index exceeds Pdfium limits (must be <= 65535)"@,
            RenderFault::NonPositivePage => "page has non-positive dimensions"@,
            RenderFault::InvalidScale => "invalid rendering scale computed from dpi"@,
            RenderFault::ZeroRendered => "rendered page has zero dimensions"@,
            RenderFault::OutsidePage(index) => "rectangle at index "@ + decimal(index as nat)
                + " does not overlap the page bounds"@,
            RenderFault::EmptyRegion(index) => "rectangle at index "@ + decimal(index as nat)
                + " produced an empty region after scaling"@,
        }
    }

    /// The report of the fault.
    pub fn message(&self) -> (r: String)
        ensures
            r@ == self.message_of(),
    {
        match self {
            RenderFault::InvalidDpi => String::from_str("dpi must be a positive finite value"),
            RenderFault::PageIndexTooLarge => String::from_str(
                "page_index exceeds Pdfium limits (must be <= 65535)",
            ),
            RenderFault::NonPositivePage => String::from_str("page has non-positive dimensions"),
            RenderFault::InvalidScale => String::from_str(
                "invalid rendering scale computed from dpi",
            ),
            RenderFault::ZeroRendered => String::from_str("rendered page has zero dimensions"),
            RenderFault::OutsidePage(index) => {
                let mut text = String::from_str("rectangle at index ");
                push_decimal(&mut text, *index);
                text.append(" does not overlap the page bounds");
                text
            },
            RenderFault::EmptyRegion(index) => {
                let mut text = String::from_str("rectangle at index ");
                push_decimal(&mut text, *index);
                text.append(" produced an empty region after scaling");
                text
            },
        }
    }
}

impl BindingFaultView {
    /// The report of the fault.
    pub open spec fn message_of(self) -> Seq<char> {
        match self {
            BindingFaultView::LoadLibrary(inner) => "Failed to load Pdfium library: "@ + inner
                + ". Place a compatible Pdfium shared library in the working directory or install it system-wide."@,
            BindingFaultView::LoadFunctionName(name) => "Failed to resolve Pdfium symbol '"@ + name
                + "'. Ensure the Pdfium library matches the crate configuration."@,
            BindingFaultView::Other(words) => words,
        }
    }
}

impl BindingFault {
    /// The report of the fault: for a library that did not load or does not
    /// fit, it says what to do about it.
    pub fn message(&self) -> (r: String)
        ensures
            r@ == self@.message_of(),
    {
        match self {
            BindingFault::LoadLibrary(inner) => {
                let mut text = String::from_str("Failed to load Pdfium library: ");
                text.append(inner.as_str());
                text.append(
                    ". Place a compatible Pdfium shared library in the working directory or install it system-wide.",
                );
                text
            },
            BindingFault::LoadFunctionName(name) => {
                let mut text = String::from_str("Failed to resolve Pdfium symbol '");
                text.append(name.as_str());
                text.append("'. Ensure the Pdfium library matches the crate configuration.");
                text
            },
            BindingFault::Other(words) => words.clone(),
        }
    }
}

impl ExtractErrorView {
    /// The report of the fault.
    pub open spec fn message_of(self) -> Seq<char> {
        match self {
            ExtractErrorView::PdfStructure(words) => words,
            ExtractErrorView::ImageShape(fault) => fault.message_of(),
            ExtractErrorView::RenderConfig(fault) => fault.message_of(),
            ExtractErrorView::UnsupportedPng(color) => "unsupported PNG color type: "@
                + color.name_of(),
            ExtractErrorView::NativeBinding(fault) => fault.message_of(),
        }
    }
}

impl ExtractError {
    /// The report of the failure, as it is shown to the caller.
    pub fn message(&self) -> (r: String)
        ensures
            r@ == self@.message_of(),
    {
        match self {
            ExtractError::PdfStructure(words) => words.clone(),
            ExtractError::ImageShape(fault) => fault.message(),
            ExtractError::RenderConfig(fault) => fault.message(),
            ExtractError::UnsupportedPng(color) => {
                let mut text = String::from_str("unsupported PNG color type: ");
                text.append(color.name());
                text
            },
            ExtractError::NativeBinding(fault) => fault.message(),
        }
    }
}

} // verus!
