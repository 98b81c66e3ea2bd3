//! Image records: what an image object of a page holds, and how it is turned
//! into a PNG or passed through under the name of its filter.

use crate::error::{ExtractError, ExtractErrorView, ImageShapeFault, PngColor};
use vstd::prelude::*;

verus! {

/// How the payload of an image record is encoded.
#[derive(Clone, Copy, Debug, PartialEq, Eq, Structural)]
pub enum ImageFormat {
    Png,
    Jpeg,
    Jpx,
    Jbig2,
    Fax,
    Flate,
    Raw,
}

/// The colour space of an image object, as far as it matters here.
#[derive(Clone, Copy, Debug, PartialEq, Eq, Structural)]
pub enum ColorSpaceKind {
    DeviceGray,
    DeviceRGB,
    Other,
}

/// The outermost filter of an image stream, as far as it matters here.
#[derive(Clone, Copy, Debug, PartialEq, Eq, Structural)]
pub enum FilterKind {
    DCTDecode,
    JPXDecode,
    JBIG2Decode,
    CCITTFaxDecode,
    FlateDecode,
    Other,
}

/// The bytes of an image stream with every filter undone but the outermost
/// image filter, which is named.
#[derive(Clone, Debug)]
pub struct FilteredData {
    pub data: Vec<u8>,
    pub filter: Option<FilterKind>,
}

/// An image object as its page holds it.
#[derive(Debug)]
pub struct ImageSource {
    pub width: u32,
    pub height: u32,
    pub bits_per_component: Option<i32>,
    pub color_space: Option<ColorSpaceKind>,
    /// The fully decoded samples, or why they could not be decoded.
    pub decoded: Result<Vec<u8>, String>,
    /// The stream short of its image filter, or why it could not be read.
    pub filtered: Result<FilteredData, String>,
}

/// A decoded image: its size in pixels, and its payload in the named format.
#[derive(Clone, Debug)]
pub struct ImageResult {
    pub data: Vec<u8>,
    pub width: u32,
    pub height: u32,
    pub format: ImageFormat,
}

/// An image record with its payload as a sequence of bytes.
pub struct ImageResultView {
    pub data: Seq<u8>,
    pub width: u32,
    pub height: u32,
    pub format: ImageFormat,
}

impl View for ImageResult {
    type V = ImageResultView;

    open spec fn view(&self) -> ImageResultView {
        ImageResultView { data: self.data@, width: self.width, height: self.height, format: self.format }
    }
}

impl ImageFormat {
    /// The tag under which the format is reported.
    pub open spec fn tag_of(self) -> Seq<char> {
        match self {
            ImageFormat::Png => "png"@,
            ImageFormat::Jpeg => "jpeg"@,
            ImageFormat::Jpx => "jpx"@,
            ImageFormat::Jbig2 => "jbig2"@,
            ImageFormat::Fax => "fax"@,
            ImageFormat::Flate => "flate"@,
            ImageFormat::Raw => "raw"@,
        }
    }

    /// The tag under which the format is reported.
    pub fn tag(&self) -> (r: &'static str)
        ensures
            r@ == self.tag_of(),
    {
        match self {
            ImageFormat::Png => "png",
            ImageFormat::Jpeg => "jpeg",
            ImageFormat::Jpx => "jpx",
            ImageFormat::Jbig2 => "jbig2",
            ImageFormat::Fax => "fax",
            ImageFormat::Flate => "flate",
            ImageFormat::Raw => "raw",
        }
    }
}

/// The format tag that goes with the outermost filter of a stream.
pub open spec fn format_of(filter: Option<FilterKind>) -> ImageFormat {
    match filter {
        Some(FilterKind::DCTDecode) => ImageFormat::Jpeg,
        Some(FilterKind::JPXDecode) => ImageFormat::Jpx,
        Some(FilterKind::JBIG2Decode) => ImageFormat::Jbig2,
        Some(FilterKind::CCITTFaxDecode) => ImageFormat::Fax,
        Some(FilterKind::FlateDecode) => ImageFormat::Flate,
        Some(FilterKind::Other) => ImageFormat::Raw,
        None => ImageFormat::Raw,
    }
}

/// Names the format of a stream that is passed through.
pub fn filter_format(filter: Option<FilterKind>) -> (format: ImageFormat)
    ensures
        format == format_of(filter),
{
    match filter {
        Some(FilterKind::DCTDecode) => ImageFormat::Jpeg,
        Some(FilterKind::JPXDecode) => ImageFormat::Jpx,
        Some(FilterKind::JBIG2Decode) => ImageFormat::Jbig2,
        Some(FilterKind::CCITTFaxDecode) => ImageFormat::Fax,
        Some(FilterKind::FlateDecode) => ImageFormat::Flate,
        Some(FilterKind::Other) => ImageFormat::Raw,
        None => ImageFormat::Raw,
    }
}

impl PngColor {
    /// The encoder writes this layout at eight bits per sample.
    pub open spec fn encodable(self) -> bool {
        self == PngColor::Grayscale || self == PngColor::Rgb || self == PngColor::Rgba
    }

    /// Samples per pixel.
    pub open spec fn samples(self) -> int {
        match self {
            PngColor::Grayscale => 1,
            PngColor::Rgb => 3,
            PngColor::Indexed => 1,
            PngColor::GrayscaleAlpha => 2,
            PngColor::Rgba => 4,
        }
    }
}

/// What the PNG encoder makes of `data` as an image of `width` by `height`
/// pixels with `samples` eight-bit samples per pixel: the bytes of the file,
/// or its complaint.
pub uninterp spec fn png_encoding(data: Seq<u8>, width: u32, height: u32, samples: int) -> Result<
    Seq<u8>,
    Seq<char>,
>;

/// The sizes that the PNG encoder computes for an image fit the machine.
///
/// For a row the encoder counts one byte and the samples, for the image so
/// many rows, and for the stored form of that at most five bytes more for
/// every 65535 and a few at the ends. Twice the rows and 65545 bytes bound
/// all of these, and keep a row within what a vector can hold.
pub open spec fn encoder_fits(width: u32, height: u32, samples: int) -> bool {
    width * samples < usize::MAX && 2 * ((width * samples + 1) * height) + 65545 <= usize::MAX
}

/// Runs `png::Encoder` on `data` and returns the file it writes into memory:
/// `Encoder::new`, `set_color`, `set_depth(BitDepth::Eight)`,
/// `write_header`, `Writer::write_image_data`, then the end of the writer.
/// The encoder is deterministic, so its outcome is named by
/// [`png_encoding`]; an error comes back as its text. The encoder computes
/// in `usize` the length of a row with its filter byte, the length of all
/// rows, and the length of their stored form, so these must fit there
/// ([`encoder_fits`]).
#[verifier::external_body]
fn png_encode_eight_bit(data: &[u8], width: u32, height: u32, color: PngColor) -> (r: Result<
    Vec<u8>,
    String,
>)
    requires
        color.encodable(),
        encoder_fits(width, height, color.samples()),
    ensures
        match r {
            Ok(bytes) => png_encoding(data@, width, height, color.samples()) == Ok::<
                Seq<u8>,
                Seq<char>,
            >(bytes@),
            Err(words) => png_encoding(data@, width, height, color.samples()) == Err::<
                Seq<u8>,
                Seq<char>,
            >(words@),
        },
{
    let kind = match color {
        PngColor::Grayscale => png::ColorType::Grayscale,
        PngColor::Rgb => png::ColorType::Rgb,
        PngColor::Indexed => png::ColorType::Indexed,
        PngColor::GrayscaleAlpha => png::ColorType::GrayscaleAlpha,
        PngColor::Rgba => png::ColorType::Rgba,
    };
    let mut buffer = Vec::new();
    let mut encoder = png::Encoder::new(&mut buffer, width, height);
    encoder.set_color(kind);
    encoder.set_depth(png::BitDepth::Eight);
    let mut writer = encoder.write_header().map_err(|e| e.to_string())?;
    writer.write_image_data(data).map_err(|e| e.to_string())?;
    drop(writer);
    Ok(buffer)
}

/// The image record that comes of encoding `data` as a PNG.
pub open spec fn encoded(data: Seq<u8>, width: u32, height: u32, color: PngColor) -> Result<
    Seq<u8>,
    ExtractErrorView,
> {
    if !color.encodable() {
        Err(ExtractErrorView::UnsupportedPng(color))
    } else {
        match png_encoding(data, width, height, color.samples()) {
            Ok(bytes) => Ok(bytes),
            Err(words) => Err(ExtractErrorView::PdfStructure(words)),
        }
    }
}

/// Encodes eight-bit samples as a PNG file. Only grey, RGB and RGBA samples
/// are written; any other layout is refused. What the encoder objects to is
/// reported in its words. The image must be of a size that the encoder can
/// compute with.
pub fn encode_png(data: &[u8], width: u32, height: u32, color: PngColor) -> (r: Result<
    Vec<u8>,
    ExtractError,
>)
    requires
        color.encodable() ==> encoder_fits(width, height, color.samples()),
    ensures
        match r {
            Ok(bytes) => encoded(data@, width, height, color) == Ok::<Seq<u8>, ExtractErrorView>(
                bytes@,
            ),
            Err(e) => encoded(data@, width, height, color) == Err::<Seq<u8>, ExtractErrorView>(e@),
        },
{
    match color {
        PngColor::Grayscale | PngColor::Rgb | PngColor::Rgba => {},
        _ => {
            return Err(ExtractError::UnsupportedPng(color));
        },
    }
    match png_encode_eight_bit(data, width, height, color) {
        Ok(bytes) => Ok(bytes),
        Err(words) => Err(ExtractError::PdfStructure(words)),
    }
}

/// The record that comes of the PNG file of the samples `data`.
pub open spec fn png_record(data: Seq<u8>, width: u32, height: u32, color: PngColor) -> Result<
    ImageResultView,
    ExtractErrorView,
> {
    match encoded(data, width, height, color) {
        Ok(bytes) => Ok(ImageResultView { data: bytes, width, height, format: ImageFormat::Png }),
        Err(e) => Err(e),
    }
}

/// The bits of a sample where the image names none.
pub const DEFAULT_BITS: i32 = 8;

/// The samples are `samples` bytes for each pixel of the image, and the
/// image is of a size that the encoder can compute with.
pub open spec fn shape_fits(len: nat, width: u32, height: u32, samples: int) -> bool {
    len == width * height * samples && encoder_fits(width, height, samples)
}

/// The record of an image that is passed through: its stream as it stands,
/// under the name of its outermost filter.
pub open spec fn passed_through(image: ImageSource) -> Result<ImageResultView, ExtractErrorView> {
    match image.filtered {
        Err(words) => Err(ExtractErrorView::PdfStructure(words@)),
        Ok(stream) => Ok(
            ImageResultView {
                data: stream.data@,
                width: image.width,
                height: image.height,
                format: format_of(stream.filter),
            },
        ),
    }
}

/// The record of an image whose samples are encoded as a PNG: the samples
/// must have been decoded and count `color.samples()` bytes per pixel.
pub open spec fn re_encoded(image: ImageSource, color: PngColor, fault: ImageShapeFault) -> Result<
    ImageResultView,
    ExtractErrorView,
> {
    match image.decoded {
        Err(words) => Err(ExtractErrorView::PdfStructure(words@)),
        Ok(samples) => if !shape_fits(samples@.len(), image.width, image.height, color.samples()) {
            Err(ExtractErrorView::ImageShape(fault))
        } else {
            png_record(samples@, image.width, image.height, color)
        },
    }
}

/// The record that an image object gives.
///
/// Eight-bit samples in RGB (which is also assumed where no colour space is
/// named) or in grey are decoded, must count three bytes, or one, per pixel,
/// and are encoded as a PNG. Every other image is passed through as its
/// stream stands, under the name of its outermost filter, and is not
/// decoded.
pub open spec fn extracted(image: ImageSource) -> Result<ImageResultView, ExtractErrorView> {
    let bits = match image.bits_per_component {
        Some(b) => b,
        None => DEFAULT_BITS,
    };
    if bits == 8 && (image.color_space is None || image.color_space == Some(
        ColorSpaceKind::DeviceRGB,
    )) {
        re_encoded(image, PngColor::Rgb, ImageShapeFault::Rgb)
    } else if bits == 8 && image.color_space == Some(ColorSpaceKind::DeviceGray) {
        re_encoded(image, PngColor::Grayscale, ImageShapeFault::Grayscale)
    } else {
        passed_through(image)
    }
}

/// Tells whether `len` bytes are `samples` bytes for each of `width` by
/// `height` pixels, and the image of a size that the encoder can compute
/// with.
fn size_matches(len: usize, width: u32, height: u32, samples: u8) -> (r: bool)
    requires
        samples <= 4,
    ensures
        r == shape_fits(len as nat, width, height, samples as int),
{
    assert(width * height <= 0xFFFF_FFFF * 0xFFFF_FFFF) by (nonlinear_arith)
        requires
            0 <= width <= 0xFFFF_FFFF,
            0 <= height <= 0xFFFF_FFFF,
    ;
    let pixels: u128 = (width as u128) * (height as u128);
    assert(pixels * samples <= 0xFFFF_FFFF * 0xFFFF_FFFF * 4) by (nonlinear_arith)
        requires
            0 <= pixels <= 0xFFFF_FFFF * 0xFFFF_FFFF,
            0 <= samples <= 4,
    ;
    let expected: u128 = pixels * (samples as u128);
    assert(width * samples <= 0xFFFF_FFFF * 4) by (nonlinear_arith)
        requires
            0 <= width <= 0xFFFF_FFFF,
            0 <= samples <= 4,
    ;
    let row: u128 = (width as u128) * (samples as u128) + 1;
    assert(row * height <= (0xFFFF_FFFF * 4 + 1) * 0xFFFF_FFFF) by (nonlinear_arith)
        requires
            0 <= row <= 0xFFFF_FFFF * 4 + 1,
            0 <= height <= 0xFFFF_FFFF,
    ;
    let rows: u128 = row * (height as u128);
    len as u128 == expected && row <= usize::MAX as u128 && 2 * rows + 65545 <= usize::MAX as u128
}

/// Encodes the decoded samples of an image as a PNG.
fn re_encode(image: &ImageSource, color: PngColor, samples_per_pixel: u8, fault: ImageShapeFault) -> (r:
    Result<ImageResult, ExtractError>)
    requires
        color.encodable(),
        samples_per_pixel == color.samples(),
    ensures
        match r {
            Ok(record) => re_encoded(*image, color, fault) == Ok::<
                ImageResultView,
                ExtractErrorView,
            >(record@),
            Err(e) => re_encoded(*image, color, fault) == Err::<ImageResultView, ExtractErrorView>(
                e@,
            ),
        },
{
    let samples = match &image.decoded {
        Ok(samples) => samples,
        Err(words) => {
            return Err(ExtractError::PdfStructure(words.clone()));
        },
    };
    if !size_matches(samples.len(), image.width, image.height, samples_per_pixel) {
        return Err(ExtractError::ImageShape(fault));
    }
    let png = encode_png(samples.as_slice(), image.width, image.height, color)?;
    Ok(ImageResult { data: png, width: image.width, height: image.height, format: ImageFormat::Png })
}

/// Turns an image object into an image record.
pub fn extract_image(image: &ImageSource) -> (r: Result<ImageResult, ExtractError>)
    ensures
        match r {
            Ok(record) => extracted(*image) == Ok::<ImageResultView, ExtractErrorView>(record@),
            Err(e) => extracted(*image) == Err::<ImageResultView, ExtractErrorView>(e@),
        },
{
    let bits: i32 = match image.bits_per_component {
        Some(b) => b,
        None => DEFAULT_BITS,
    };
    let rgb = match image.color_space {
        None => true,
        Some(ColorSpaceKind::DeviceRGB) => true,
        _ => false,
    };
    let gray = match image.color_space {
        Some(ColorSpaceKind::DeviceGray) => true,
        _ => false,
    };
    if bits == 8 && rgb {
        re_encode(image, PngColor::Rgb, 3, ImageShapeFault::Rgb)
    } else if bits == 8 && gray {
        re_encode(image, PngColor::Grayscale, 1, ImageShapeFault::Grayscale)
    } else {
        match &image.filtered {
            Err(words) => Err(ExtractError::PdfStructure(words.clone())),
            Ok(stream) => Ok(
                ImageResult {
                    data: stream.data.clone(),
                    width: image.width,
                    height: image.height,
                    format: filter_format(stream.filter),
                },
            ),
        }
    }
}

} // verus!
