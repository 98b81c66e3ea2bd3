//! Cutting page-space rectangles out of a rendered page.
//!
//! The page is rendered elsewhere; this module decides which pixels belong to
//! each rectangle, crops them, and encodes each crop as a PNG.

use crate::error::{ExtractError, ExtractErrorView, PngColor, RenderFault};
use crate::fixed::{ceil_div, ceil_div_wide, floor_div, floor_div_wide, Fixed};
use crate::geometry::{canonical_box, canonicalize, BBox};
use crate::imaging::{
    encode_png, encoder_fits, png_encoding, png_record, ImageFormat, ImageResult, ImageResultView,
};
use vstd::prelude::*;

verus! {

/// Page units per inch.
pub const POINTS_PER_INCH: i64 = 72;

/// A page rendered to RGBA samples, row by row from the top.
#[derive(Debug)]
pub struct RenderedPage {
    pub width: u32,
    pub height: u32,
    pub pixels: Vec<u8>,
}

/// A rectangle of pixels: `left` and `top` belong to it, `right` and `bottom`
/// lie just outside.
#[derive(Clone, Copy, Debug, PartialEq, Eq, Structural)]
pub struct PixelRect {
    pub left: u32,
    pub top: u32,
    pub right: u32,
    pub bottom: u32,
}

/// The image of one rectangle of a page.
#[derive(Debug)]
pub struct RegionImage {
    /// The position of the rectangle in the request.
    pub index: usize,
    pub page_index: usize,
    /// The rectangle as it was asked for.
    pub input_bbox: BBox,
    /// The rectangle in order and cut to the page.
    pub bbox: BBox,
    /// The pixels that were cropped.
    pub pixel_bounds: PixelRect,
    pub image: ImageResult,
    pub dpi: Fixed,
    pub scale: Fixed,
}

/// The image of a rectangle with its payload as a sequence of bytes.
pub struct RegionImageView {
    pub index: usize,
    pub page_index: usize,
    pub input_bbox: BBox,
    pub bbox: BBox,
    pub pixel_bounds: PixelRect,
    pub image: ImageResultView,
    pub dpi: Fixed,
    pub scale: Fixed,
}

impl View for RegionImage {
    type V = RegionImageView;

    open spec fn view(&self) -> RegionImageView {
        RegionImageView {
            index: self.index,
            page_index: self.page_index,
            input_bbox: self.input_bbox,
            bbox: self.bbox,
            pixel_bounds: self.pixel_bounds,
            image: self.image@,
            dpi: self.dpi,
            scale: self.scale,
        }
    }
}

impl RenderedPage {
    /// There are four samples for every pixel, and the page is of a size
    /// that the encoder can compute with, so that every crop of it is too.
    pub open spec fn wf(self) -> bool {
        self.pixels@.len() == self.width * self.height * 4 && encoder_fits(
            self.width,
            self.height,
            4,
        )
    }

    /// Takes over the samples of a rendered page, if they are four for every
    /// pixel and the page is of a size that the encoder can compute with.
    pub fn new(width: u32, height: u32, pixels: Vec<u8>) -> (r: Option<RenderedPage>)
        ensures
            r is Some <==> pixels@.len() == width * height * 4 && encoder_fits(width, height, 4),
            r matches Some(page) ==> page.width == width && page.height == height && page.pixels
                == pixels && page.wf(),
    {
        assert(width * height <= 0xFFFF_FFFF * 0xFFFF_FFFF) by (nonlinear_arith)
            requires
                0 <= width <= 0xFFFF_FFFF,
                0 <= height <= 0xFFFF_FFFF,
        ;
        let expected: u128 = (width as u128) * (height as u128) * 4;
        let row: u128 = (width as u128) * 4 + 1;
        assert(row * height <= (0xFFFF_FFFF * 4 + 1) * 0xFFFF_FFFF) by (nonlinear_arith)
            requires
                0 <= row <= 0xFFFF_FFFF * 4 + 1,
                0 <= height <= 0xFFFF_FFFF,
        ;
        let rows: u128 = row * (height as u128);
        if pixels.len() as u128 == expected && row <= usize::MAX as u128 && 2 * rows + 65545
            <= usize::MAX as u128 {
            Some(RenderedPage { width, height, pixels })
        } else {
            None
        }
    }
}

/// A crop of an image that the encoder can compute with is one too.
proof fn lemma_crop_fits(width: u32, height: u32, crop_width: u32, crop_height: u32)
    requires
        encoder_fits(width, height, 4),
        crop_width <= width,
        crop_height <= height,
    ensures
        encoder_fits(crop_width, crop_height, 4),
{
    assert((crop_width * 4 + 1) * crop_height <= (width * 4 + 1) * height) by (nonlinear_arith)
        requires
            0 <= crop_width <= width,
            0 <= crop_height <= height,
    ;
}

/// The scale at which a page is rendered for a resolution.
pub open spec fn render_scale(dpi: Fixed) -> Fixed {
    dpi.scaled(1, POINTS_PER_INCH)
}

/// The rectangle put in order and cut to the page.
pub open spec fn clamped_rect(rect: BBox, page_width: Fixed, page_height: Fixed) -> BBox {
    let c = canonical_box(rect.x0, rect.y0, rect.x1, rect.y1);
    let zero = Fixed { raw: 0 };
    BBox {
        x0: c.x0.clamp(zero, page_width),
        y0: c.y0.clamp(zero, page_height),
        x1: c.x1.clamp(zero, page_width),
        y1: c.y1.clamp(zero, page_height),
    }
}

/// The pixel in which the page coordinate `v` falls, counted along an axis on
/// which `extent` page units are `pixels` pixels; the result is kept within
/// the bitmap.
pub open spec fn pixel_below(v: Fixed, pixels: u32, extent: Fixed) -> int {
    let q = floor_div(v.raw * pixels, extent.raw as int);
    if q < 0 {
        0
    } else if q > pixels {
        pixels as int
    } else {
        q
    }
}

/// The first pixel boundary at or beyond the page coordinate `v`, kept within
/// the bitmap.
pub open spec fn pixel_above(v: Fixed, pixels: u32, extent: Fixed) -> int {
    let q = ceil_div(v.raw * pixels, extent.raw as int);
    if q < 0 {
        0
    } else if q > pixels {
        pixels as int
    } else {
        q
    }
}

/// An empty span of pixels is widened by one pixel where the bitmap has room.
pub open spec fn widened(low: int, high: int, limit: int) -> int {
    if high <= low {
        if high + 1 <= limit {
            high + 1
        } else {
            limit
        }
    } else {
        high
    }
}

/// The pixels of the bitmap that a rectangle of the page covers. The page's
/// y axis points up and the bitmap's rows run down, so the top of the
/// rectangle gives the first row.
pub open spec fn pixel_rect(
    c: BBox,
    page_width: Fixed,
    page_height: Fixed,
    image_width: u32,
    image_height: u32,
) -> PixelRect {
    let left = pixel_below(c.x0, image_width, page_width);
    let right = pixel_above(c.x1, image_width, page_width);
    let top = pixel_below(page_height.minus(c.y1), image_height, page_height);
    let bottom = pixel_above(page_height.minus(c.y0), image_height, page_height);
    PixelRect {
        left: left as u32,
        top: top as u32,
        right: widened(left, right, image_width as int) as u32,
        bottom: widened(top, bottom, image_height as int) as u32,
    }
}

/// The first `rows` rows of the crop of `crop_width` pixels that starts at
/// column `left` of row `top`, sample by sample.
pub open spec fn cropped(
    pixels: Seq<u8>,
    width: int,
    left: int,
    top: int,
    crop_width: int,
    rows: int,
) -> Seq<u8>
    decreases rows,
{
    if rows <= 0 {
        Seq::<u8>::empty()
    } else {
        cropped(pixels, width, left, top, crop_width, rows - 1) + pixels.subrange(
            ((top + rows - 1) * width + left) * 4,
            ((top + rows - 1) * width + left + crop_width) * 4,
        )
    }
}

/// The samples of the pixels of `rect`.
pub open spec fn crop_of(page: RenderedPage, rect: PixelRect) -> Seq<u8> {
    cropped(
        page.pixels@,
        page.width as int,
        rect.left as int,
        rect.top as int,
        rect.right - rect.left,
        rect.bottom - rect.top,
    )
}

proof fn lemma_row_bounds(width: int, height: int, left: int, top: int, crop_width: int, row: int)
    requires
        0 <= left,
        0 <= top,
        0 <= crop_width,
        left + crop_width <= width,
        0 <= row,
        top + row < height,
    ensures
        0 <= ((top + row) * width + left) * 4 <= ((top + row) * width + left + crop_width) * 4
            <= width * height * 4,
{
    assert((top + row) * width + width <= height * width) by (nonlinear_arith)
        requires
            top + row + 1 <= height,
            0 <= width,
    ;
    assert(0 <= (top + row) * width) by (nonlinear_arith)
        requires
            0 <= top + row,
            0 <= width,
    ;
    assert(height * width == width * height) by (nonlinear_arith);
}

/// The crop of `rows` rows has `crop_width * rows * 4` samples.
pub proof fn lemma_cropped_len(
    pixels: Seq<u8>,
    width: int,
    height: int,
    left: int,
    top: int,
    crop_width: int,
    rows: int,
)
    requires
        pixels.len() == width * height * 4,
        0 <= left,
        0 <= top,
        0 <= crop_width,
        left + crop_width <= width,
        0 <= rows,
        top + rows <= height,
    ensures
        cropped(pixels, width, left, top, crop_width, rows).len() == crop_width * rows * 4,
    decreases rows,
{
    if rows > 0 {
        lemma_cropped_len(pixels, width, height, left, top, crop_width, rows - 1);
        lemma_row_bounds(width, height, left, top, crop_width, rows - 1);
        assert(crop_width * (rows - 1) * 4 + crop_width * 4 == crop_width * rows * 4)
            by (nonlinear_arith);
    } else {
        assert(crop_width * rows * 4 == 0) by (nonlinear_arith)
            requires
                rows == 0,
        ;
    }
}

/// Copies the samples of the pixels of `rect` out of the page.
pub fn crop_rgba(page: &RenderedPage, rect: PixelRect) -> (out: Vec<u8>)
    requires
        page.wf(),
        rect.left <= rect.right <= page.width,
        rect.top <= rect.bottom <= page.height,
    ensures
        out@ == crop_of(*page, rect),
        out@.len() == (rect.right - rect.left) * (rect.bottom - rect.top) * 4,
{
    let width = page.width as usize;
    let left = rect.left as usize;
    let top = rect.top as usize;
    let crop_width = (rect.right - rect.left) as usize;
    let crop_height = (rect.bottom - rect.top) as usize;
    let mut out: Vec<u8> = Vec::new();
    let mut row: usize = 0;
    while row < crop_height
        invariant
            page.wf(),
            width == page.width,
            left + crop_width <= width,
            top + crop_height <= page.height,
            row <= crop_height,
            out@ == cropped(
                page.pixels@,
                width as int,
                left as int,
                top as int,
                crop_width as int,
                row as int,
            ),
        decreases crop_height - row,
    {
        proof {
            lemma_row_bounds(
                width as int,
                page.height as int,
                left as int,
                top as int,
                crop_width as int,
                row as int,
            );
            assert(0 <= (top + row) * width) by (nonlinear_arith)
                requires
                    0 <= top + row,
                    0 <= width,
            ;
            assert(width * page.height * 4 == page.pixels.len());
        }
        let start: usize = ((top + row) * width + left) * 4;
        let end: usize = ((top + row) * width + left + crop_width) * 4;
        let ghost before = out@;
        let mut k: usize = start;
        while k < end
            invariant
                start <= k <= end <= page.pixels@.len(),
                out@ == before + page.pixels@.subrange(start as int, k as int),
            decreases end - k,
        {
            out.push(page.pixels[k]);
            proof {
                assert(page.pixels@.subrange(start as int, k + 1) =~= page.pixels@.subrange(
                    start as int,
                    k as int,
                ).push(page.pixels@[k as int]));
            }
            k += 1;
        }
        row += 1;
    }
    proof {
        lemma_cropped_len(
            page.pixels@,
            width as int,
            page.height as int,
            left as int,
            top as int,
            crop_width as int,
            crop_height as int,
        );
    }
    out
}

fn pixel_floor(v: Fixed, pixels: u32, extent: Fixed) -> (r: u32)
    requires
        extent.raw > 0,
    ensures
        r == pixel_below(v, pixels, extent),
        r <= pixels,
{
    let a: i128 = v.raw as i128;
    let b: i128 = pixels as i128;
    assert(-0x8000_0000_0000_0000 * 0x1_0000_0000 <= a * b <= 0x8000_0000_0000_0000 * 0x1_0000_0000)
        by (nonlinear_arith)
        requires
            -0x8000_0000_0000_0000 <= a <= 0x8000_0000_0000_0000,
            0 <= b <= 0x1_0000_0000,
    ;
    let q = floor_div_wide(a * b, extent.raw as i128);
    if q < 0 {
        0
    } else if q > pixels as i128 {
        pixels
    } else {
        q as u32
    }
}

fn pixel_ceil(v: Fixed, pixels: u32, extent: Fixed) -> (r: u32)
    requires
        extent.raw > 0,
    ensures
        r == pixel_above(v, pixels, extent),
        r <= pixels,
{
    let a: i128 = v.raw as i128;
    let b: i128 = pixels as i128;
    assert(-0x8000_0000_0000_0000 * 0x1_0000_0000 <= a * b <= 0x8000_0000_0000_0000 * 0x1_0000_0000)
        by (nonlinear_arith)
        requires
            -0x8000_0000_0000_0000 <= a <= 0x8000_0000_0000_0000,
            0 <= b <= 0x1_0000_0000,
    ;
    let q = ceil_div_wide(a * b, extent.raw as i128);
    if q < 0 {
        0
    } else if q > pixels as i128 {
        pixels
    } else {
        q as u32
    }
}

fn widen(low: u32, high: u32, limit: u32) -> (r: u32)
    requires
        high <= limit,
    ensures
        r == widened(low as int, high as int, limit as int),
        r <= limit,
{
    if high <= low {
        if high < limit {
            high + 1
        } else {
            limit
        }
    } else {
        high
    }
}

/// Cuts a rectangle to the page, corners in order.
pub fn clamp_to_page(rect: BBox, page_width: Fixed, page_height: Fixed) -> (c: BBox)
    ensures
        c == clamped_rect(rect, page_width, page_height),
        page_width.raw >= 0 && page_height.raw >= 0 ==> c.ordered(),
{
    let canonical = canonicalize(rect.x0, rect.y0, rect.x1, rect.y1);
    let zero = Fixed::zero();
    BBox {
        x0: canonical.x0.clamp(zero, page_width),
        y0: canonical.y0.clamp(zero, page_height),
        x1: canonical.x1.clamp(zero, page_width),
        y1: canonical.y1.clamp(zero, page_height),
    }
}

/// Maps a rectangle of the page to the pixels of the bitmap that it covers.
pub fn map_to_pixels(
    c: BBox,
    page_width: Fixed,
    page_height: Fixed,
    image_width: u32,
    image_height: u32,
) -> (px: PixelRect)
    requires
        page_width.raw > 0,
        page_height.raw > 0,
    ensures
        px == pixel_rect(c, page_width, page_height, image_width, image_height),
        px.right <= image_width,
        px.bottom <= image_height,
{
    let left = pixel_floor(c.x0, image_width, page_width);
    let right = pixel_ceil(c.x1, image_width, page_width);
    let top = pixel_floor(page_height.minus(c.y1), image_height, page_height);
    let bottom = pixel_ceil(page_height.minus(c.y0), image_height, page_height);
    PixelRect {
        left,
        top,
        right: widen(left, right, image_width),
        bottom: widen(top, bottom, image_height),
    }
}

/// Along one axis, a span of the page that is not empty covers at least one
/// pixel of a bitmap that has any.
proof fn lemma_span_covers_pixel(low: Fixed, high: Fixed, pixels: u32, extent: Fixed)
    requires
        0 <= low.raw < high.raw <= extent.raw,
        pixels > 0,
    ensures
        0 <= pixel_below(low, pixels, extent) < pixel_above(high, pixels, extent) <= pixels,
{
    let d = extent.raw as int;
    let a = low.raw * pixels;
    let b = high.raw * pixels;
    let q1 = floor_div(a, d);
    let q2 = ceil_div(b, d);
    crate::fixed::lemma_floor_div_bounds(a, d);
    crate::fixed::lemma_floor_div_bounds(-b, d);
    assert(0 <= a < b <= d * pixels) by (nonlinear_arith)
        requires
            0 <= low.raw < high.raw <= d,
            pixels > 0,
            a == low.raw * pixels,
            b == high.raw * pixels,
    ;
    assert(0 <= q1 < pixels) by (nonlinear_arith)
        requires
            d > 0,
            0 <= a < d * pixels,
            d * q1 <= a < d * q1 + d,
    ;
    assert(q1 < q2 <= pixels) by (nonlinear_arith)
        requires
            d > 0,
            a < b <= d * pixels,
            d * q1 <= a,
            d * (-q2) <= -b < d * (-q2) + d,
    ;
}

/// A rectangle that overlaps the page covers pixels of the bitmap: its
/// pixel box is not empty and lies in the bitmap.
pub proof fn lemma_region_not_empty(
    c: BBox,
    page_width: Fixed,
    page_height: Fixed,
    image_width: u32,
    image_height: u32,
)
    requires
        0 <= c.x0.raw < c.x1.raw <= page_width.raw,
        0 <= c.y0.raw < c.y1.raw <= page_height.raw,
        image_width > 0,
        image_height > 0,
    ensures
        pixel_rect(c, page_width, page_height, image_width, image_height).left < pixel_rect(
            c,
            page_width,
            page_height,
            image_width,
            image_height,
        ).right <= image_width,
        pixel_rect(c, page_width, page_height, image_width, image_height).top < pixel_rect(
            c,
            page_width,
            page_height,
            image_width,
            image_height,
        ).bottom <= image_height,
{
    lemma_span_covers_pixel(c.x0, c.x1, image_width, page_width);
    lemma_span_covers_pixel(
        page_height.minus(c.y1),
        page_height.minus(c.y0),
        image_height,
        page_height,
    );
}

/// A rectangle cut to the page lies on the page.
pub proof fn lemma_clamped_on_page(rect: BBox, page_width: Fixed, page_height: Fixed)
    requires
        page_width.raw >= 0,
        page_height.raw >= 0,
    ensures
        0 <= clamped_rect(rect, page_width, page_height).x0.raw <= clamped_rect(
            rect,
            page_width,
            page_height,
        ).x1.raw <= page_width.raw,
        0 <= clamped_rect(rect, page_width, page_height).y0.raw <= clamped_rect(
            rect,
            page_width,
            page_height,
        ).y1.raw <= page_height.raw,
{
}

/// What is wrong with a request, whatever its rectangles: the first of these
/// that applies.
pub open spec fn render_fault(
    dpi: Fixed,
    page_width: Fixed,
    page_height: Fixed,
    image_width: u32,
    image_height: u32,
) -> Option<RenderFault> {
    if dpi.raw <= 0 {
        Some(RenderFault::InvalidDpi)
    } else if page_width.raw <= 0 || page_height.raw <= 0 {
        Some(RenderFault::NonPositivePage)
    } else if render_scale(dpi).raw <= 0 {
        Some(RenderFault::InvalidScale)
    } else if image_width == 0 || image_height == 0 {
        Some(RenderFault::ZeroRendered)
    } else {
        None
    }
}

/// The record of the rectangle at `index`, or why there is none.
pub open spec fn region_record(
    index: usize,
    page_index: usize,
    rect: BBox,
    dpi: Fixed,
    page_width: Fixed,
    page_height: Fixed,
    page: RenderedPage,
) -> Result<RegionImageView, ExtractErrorView> {
    let c = clamped_rect(rect, page_width, page_height);
    let px = pixel_rect(c, page_width, page_height, page.width, page.height);
    if c.x0.raw >= c.x1.raw || c.y0.raw >= c.y1.raw {
        Err(ExtractErrorView::RenderConfig(RenderFault::OutsidePage(index)))
    } else if px.right <= px.left || px.bottom <= px.top {
        Err(ExtractErrorView::RenderConfig(RenderFault::EmptyRegion(index)))
    } else {
        match png_record(
            crop_of(page, px),
            (px.right - px.left) as u32,
            (px.bottom - px.top) as u32,
            PngColor::Rgba,
        ) {
            Ok(image) => Ok(
                RegionImageView {
                    index,
                    page_index,
                    input_bbox: rect,
                    bbox: c,
                    pixel_bounds: px,
                    image,
                    dpi,
                    scale: render_scale(dpi),
                },
            ),
            Err(e) => Err(e),
        }
    }
}

/// A rectangle that overlaps the page gives its record unless the encoder
/// objects: on a page and a bitmap that are not empty, no such rectangle
/// covers no pixel.
pub proof fn lemma_overlapping_region(
    index: usize,
    page_index: usize,
    rect: BBox,
    dpi: Fixed,
    page_width: Fixed,
    page_height: Fixed,
    page: RenderedPage,
)
    requires
        page_width.raw > 0,
        page_height.raw > 0,
        page.width > 0,
        page.height > 0,
        clamped_rect(rect, page_width, page_height).x0.raw < clamped_rect(
            rect,
            page_width,
            page_height,
        ).x1.raw,
        clamped_rect(rect, page_width, page_height).y0.raw < clamped_rect(
            rect,
            page_width,
            page_height,
        ).y1.raw,
    ensures
        region_record(index, page_index, rect, dpi, page_width, page_height, page)
            != Err::<RegionImageView, ExtractErrorView>(
            ExtractErrorView::RenderConfig(RenderFault::EmptyRegion(index)),
        ),
        region_record(index, page_index, rect, dpi, page_width, page_height, page)
            != Err::<RegionImageView, ExtractErrorView>(
            ExtractErrorView::RenderConfig(RenderFault::OutsidePage(index)),
        ),
        region_record(index, page_index, rect, dpi, page_width, page_height, page) matches Err(e)
            ==> e is PdfStructure,
{
    let c = clamped_rect(rect, page_width, page_height);
    lemma_clamped_on_page(rect, page_width, page_height);
    lemma_region_not_empty(c, page_width, page_height, page.width, page.height);
}

/// A rectangle that overlaps the page gives its record wherever the encoder
/// takes its pixels: the record carries the place of the rectangle in the
/// request, the page, and the rectangle as it was asked for.
pub proof fn lemma_region_made(
    index: usize,
    page_index: usize,
    rect: BBox,
    dpi: Fixed,
    page_width: Fixed,
    page_height: Fixed,
    page: RenderedPage,
)
    requires
        page_width.raw > 0,
        page_height.raw > 0,
        page.width > 0,
        page.height > 0,
        clamped_rect(rect, page_width, page_height).x0.raw < clamped_rect(
            rect,
            page_width,
            page_height,
        ).x1.raw,
        clamped_rect(rect, page_width, page_height).y0.raw < clamped_rect(
            rect,
            page_width,
            page_height,
        ).y1.raw,
        ({
            let px = pixel_rect(
                clamped_rect(rect, page_width, page_height),
                page_width,
                page_height,
                page.width,
                page.height,
            );
            png_encoding(
                crop_of(page, px),
                (px.right - px.left) as u32,
                (px.bottom - px.top) as u32,
                4,
            ) is Ok
        }),
    ensures
        region_record(index, page_index, rect, dpi, page_width, page_height, page) matches Ok(
            region,
        ) && region.index == index && region.page_index == page_index && region.input_bbox == rect
            && region.bbox == clamped_rect(rect, page_width, page_height) && region.dpi == dpi
            && region.scale == render_scale(dpi),
{
    let c = clamped_rect(rect, page_width, page_height);
    lemma_clamped_on_page(rect, page_width, page_height);
    lemma_region_not_empty(c, page_width, page_height, page.width, page.height);
}

/// Computes the record of one rectangle.
pub fn region_image(
    index: usize,
    page_index: usize,
    rect: BBox,
    dpi: Fixed,
    page_width: Fixed,
    page_height: Fixed,
    page: &RenderedPage,
) -> (r: Result<RegionImage, ExtractError>)
    requires
        page.wf(),
        page_width.raw > 0,
        page_height.raw > 0,
    ensures
        match r {
            Ok(region) => region_record(index, page_index, rect, dpi, page_width, page_height, *page)
                == Ok::<RegionImageView, ExtractErrorView>(region@),
            Err(e) => region_record(index, page_index, rect, dpi, page_width, page_height, *page)
                == Err::<RegionImageView, ExtractErrorView>(e@),
        },
        r matches Ok(region) ==> region.bbox.ordered() && region.pixel_bounds.left
            < region.pixel_bounds.right <= page.width && region.pixel_bounds.top
            < region.pixel_bounds.bottom <= page.height && region.image.width
            == region.pixel_bounds.right - region.pixel_bounds.left && region.image.height
            == region.pixel_bounds.bottom - region.pixel_bounds.top,
{
    let clamped = clamp_to_page(rect, page_width, page_height);
    if clamped.x0.raw >= clamped.x1.raw || clamped.y0.raw >= clamped.y1.raw {
        return Err(ExtractError::RenderConfig(RenderFault::OutsidePage(index)));
    }
    let px = map_to_pixels(clamped, page_width, page_height, page.width, page.height);
    if px.right <= px.left || px.bottom <= px.top {
        return Err(ExtractError::RenderConfig(RenderFault::EmptyRegion(index)));
    }
    let crop_width = px.right - px.left;
    let crop_height = px.bottom - px.top;
    let samples = crop_rgba(page, px);
    proof {
        lemma_crop_fits(page.width, page.height, crop_width, crop_height);
    }
    let png = encode_png(samples.as_slice(), crop_width, crop_height, PngColor::Rgba)?;
    Ok(
        RegionImage {
            index,
            page_index,
            input_bbox: rect,
            bbox: clamped,
            pixel_bounds: px,
            image: ImageResult {
                data: png,
                width: crop_width,
                height: crop_height,
                format: ImageFormat::Png,
            },
            dpi,
            scale: dpi.scaled(1, POINTS_PER_INCH),
        },
    )
}

/// Tells what a request for region images has to do before the page is
/// rendered. A resolution that is not positive is refused, whatever is asked
/// for. Then there is nothing to do where there is no rectangle (`None`);
/// else the page is rendered at the scale given, which must be positive.
pub fn plan_region_render(rectangle_count: usize, dpi: Fixed) -> (r: Result<
    Option<Fixed>,
    ExtractError,
>)
    ensures
        dpi.raw <= 0 ==> (r matches Err(e) && e@ == ExtractErrorView::RenderConfig(
            RenderFault::InvalidDpi,
        )),
        dpi.raw > 0 && rectangle_count == 0 ==> r matches Ok(None),
        dpi.raw > 0 && rectangle_count > 0 && render_scale(dpi).raw <= 0 ==> (r matches Err(e)
            && e@ == ExtractErrorView::RenderConfig(RenderFault::InvalidScale)),
        dpi.raw > 0 && rectangle_count > 0 && render_scale(dpi).raw > 0 ==> r == Ok::<
            Option<Fixed>,
            ExtractError,
        >(Some(render_scale(dpi))),
{
    if dpi.raw <= 0 {
        return Err(ExtractError::RenderConfig(RenderFault::InvalidDpi));
    }
    if rectangle_count == 0 {
        return Ok(None);
    }
    let scale = dpi.scaled(1, POINTS_PER_INCH);
    if scale.raw <= 0 {
        return Err(ExtractError::RenderConfig(RenderFault::InvalidScale));
    }
    Ok(Some(scale))
}

/// The number under which the renderer knows the page, which it counts in
/// sixteen bits.
pub fn renderer_page_number(page_index: usize) -> (r: Result<u16, ExtractError>)
    ensures
        page_index <= 65535 ==> r == Ok::<u16, ExtractError>(page_index as u16),
        page_index > 65535 ==> (r matches Err(e) && e@ == ExtractErrorView::RenderConfig(
            RenderFault::PageIndexTooLarge,
        )),
{
    if page_index <= 65535 {
        Ok(page_index as u16)
    } else {
        Err(ExtractError::RenderConfig(RenderFault::PageIndexTooLarge))
    }
}

/// Crops every rectangle out of the rendered page.
///
/// The resolution must be positive, whatever is asked for. Then, without
/// rectangles there is nothing to do. Otherwise the request must make sense
/// as a whole ([`render_fault`]), and then each rectangle gives its record
/// ([`region_record`]), in the order of the request. The first rectangle
/// that gives none fails the whole call; where every rectangle gives one,
/// the call succeeds.
pub fn extract_region_images(
    page_index: usize,
    rectangles: &Vec<BBox>,
    dpi: Fixed,
    page_width: Fixed,
    page_height: Fixed,
    page: &RenderedPage,
) -> (r: Result<Vec<RegionImage>, ExtractError>)
    requires
        page.wf(),
    ensures
        dpi.raw <= 0 ==> (r matches Err(e) && e@ == ExtractErrorView::RenderConfig(
            RenderFault::InvalidDpi,
        )),
        dpi.raw > 0 && rectangles@.len() == 0 ==> (r matches Ok(regions) && regions@.len() == 0),
        dpi.raw > 0 && rectangles@.len() > 0 ==> match render_fault(
            dpi,
            page_width,
            page_height,
            page.width,
            page.height,
        ) {
            Some(fault) => r matches Err(e) && e@ == ExtractErrorView::RenderConfig(fault),
            None => match r {
                Ok(regions) => {
                    &&& regions@.len() == rectangles@.len()
                    &&& forall|i: int|
                        0 <= i < rectangles@.len() ==> region_record(
                            i as usize,
                            page_index,
                            #[trigger] rectangles@[i],
                            dpi,
                            page_width,
                            page_height,
                            *page,
                        ) == Ok::<RegionImageView, ExtractErrorView>(regions@[i]@)
                },
                Err(e) => exists|k: int|
                    {
                        &&& 0 <= k < rectangles@.len()
                        &&& region_record(
                            k as usize,
                            page_index,
                            #[trigger] rectangles@[k],
                            dpi,
                            page_width,
                            page_height,
                            *page,
                        ) == Err::<RegionImageView, ExtractErrorView>(e@)
                        &&& forall|j: int|
                            0 <= j < k ==> region_record(
                                j as usize,
                                page_index,
                                #[trigger] rectangles@[j],
                                dpi,
                                page_width,
                                page_height,
                                *page,
                            ) is Ok
                    },
            },
        },
        r matches Ok(regions) ==> forall|i: int|
            0 <= i < regions@.len() ==> (#[trigger] regions@[i]).bbox.ordered()
                && regions@[i].pixel_bounds.left < regions@[i].pixel_bounds.right
                && regions@[i].pixel_bounds.top < regions@[i].pixel_bounds.bottom,
        dpi.raw > 0 && render_fault(dpi, page_width, page_height, page.width, page.height) is None
            && (forall|i: int|
            0 <= i < rectangles@.len() ==> region_record(
                i as usize,
                page_index,
                #[trigger] rectangles@[i],
                dpi,
                page_width,
                page_height,
                *page,
            ) is Ok) ==> r is Ok,
{
    let mut regions: Vec<RegionImage> = Vec::new();
    if dpi.raw <= 0 {
        return Err(ExtractError::RenderConfig(RenderFault::InvalidDpi));
    }
    if rectangles.len() == 0 {
        return Ok(regions);
    }
    if page_width.raw <= 0 || page_height.raw <= 0 {
        return Err(ExtractError::RenderConfig(RenderFault::NonPositivePage));
    }
    let scale = dpi.scaled(1, POINTS_PER_INCH);
    if scale.raw <= 0 {
        return Err(ExtractError::RenderConfig(RenderFault::InvalidScale));
    }
    if page.width == 0 || page.height == 0 {
        return Err(ExtractError::RenderConfig(RenderFault::ZeroRendered));
    }
    let mut index: usize = 0;
    while index < rectangles.len()
        invariant
            page.wf(),
            page_width.raw > 0,
            page_height.raw > 0,
            render_fault(dpi, page_width, page_height, page.width, page.height) is None,
            index <= rectangles@.len(),
            regions@.len() == index,
            forall|i: int|
                0 <= i < index ==> region_record(
                    i as usize,
                    page_index,
                    #[trigger] rectangles@[i],
                    dpi,
                    page_width,
                    page_height,
                    *page,
                ) == Ok::<RegionImageView, ExtractErrorView>(regions@[i]@),
            forall|i: int|
                0 <= i < regions@.len() ==> (#[trigger] regions@[i]).bbox.ordered()
                    && regions@[i].pixel_bounds.left < regions@[i].pixel_bounds.right
                    && regions@[i].pixel_bounds.top < regions@[i].pixel_bounds.bottom,
        decreases rectangles@.len() - index,
    {
        let rect = rectangles[index];
        match region_image(index, page_index, rect, dpi, page_width, page_height, page) {
            Ok(region) => {
                regions.push(region);
            },
            Err(e) => {
                assert(region_record(
                    index,
                    page_index,
                    rectangles@[index as int],
                    dpi,
                    page_width,
                    page_height,
                    *page,
                ) == Err::<RegionImageView, ExtractErrorView>(e@));
                return Err(e);
            },
        }
        index += 1;
    }
    Ok(regions)
}

} // verus!
