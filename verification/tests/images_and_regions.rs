use pdfvectorizer::error::{
    BindingFault, ExtractError, ImageShapeFault, PngColor, RenderFault,
};
use pdfvectorizer::fixed::Fixed;
use pdfvectorizer::geometry::BBox;
use pdfvectorizer::imaging::{
    encode_png, extract_image, filter_format, ColorSpaceKind, FilterKind, FilteredData,
    ImageFormat, ImageSource,
};
use pdfvectorizer::region::{
    clamp_to_page, crop_rgba, extract_region_images, map_to_pixels, plan_region_render,
    region_image, renderer_page_number, PixelRect, RenderedPage,
};

fn fx(units: i64, millionths: i64) -> Fixed {
    Fixed::from_raw(units * 1_000_000 + millionths)
}

fn whole(units: i64) -> Fixed {
    fx(units, 0)
}

fn bbox(x0: i64, y0: i64, x1: i64, y1: i64) -> BBox {
    BBox { x0: whole(x0), y0: whole(y0), x1: whole(x1), y1: whole(y1) }
}

fn decode_png(data: &[u8]) -> (png::ColorType, png::BitDepth, u32, u32, Vec<u8>) {
    let decoder = png::Decoder::new(data);
    let mut reader = decoder.read_info().expect("a PNG header");
    let mut buffer = vec![0u8; reader.output_buffer_size()];
    let info = reader.next_frame(&mut buffer).expect("a PNG frame");
    buffer.truncate(info.buffer_size());
    (info.color_type, info.bit_depth, info.width, info.height, buffer)
}

fn source(
    width: u32,
    height: u32,
    bits: Option<i32>,
    color_space: Option<ColorSpaceKind>,
    samples: Vec<u8>,
    filter: Option<FilterKind>,
) -> ImageSource {
    ImageSource {
        width,
        height,
        bits_per_component: bits,
        color_space,
        decoded: Ok(samples),
        filtered: Ok(FilteredData { data: vec![0xDE, 0xAD], filter }),
    }
}

fn test_page(width: u32, height: u32) -> RenderedPage {
    let mut pixels = Vec::new();
    for row in 0..height {
        for column in 0..width {
            pixels.extend_from_slice(&[row as u8, column as u8, (row * width + column) as u8, 255]);
        }
    }
    RenderedPage::new(width, height, pixels).unwrap()
}

#[test]
fn png_encoding_round_trips() {
    let gray = encode_png(&[1, 2, 3, 4, 5, 6], 3, 2, PngColor::Grayscale).unwrap();
    assert_eq!(&gray[..8], &[137, 80, 78, 71, 13, 10, 26, 10]);
    assert_eq!(decode_png(&gray), (png::ColorType::Grayscale, png::BitDepth::Eight, 3, 2, vec![1, 2, 3, 4, 5, 6]));
    let rgb = encode_png(&[1, 2, 3, 4, 5, 6], 1, 2, PngColor::Rgb).unwrap();
    assert_eq!(decode_png(&rgb), (png::ColorType::Rgb, png::BitDepth::Eight, 1, 2, vec![1, 2, 3, 4, 5, 6]));
    let rgba = encode_png(&[1, 2, 3, 4, 5, 6, 7, 8], 2, 1, PngColor::Rgba).unwrap();
    assert_eq!(decode_png(&rgba), (png::ColorType::Rgba, png::BitDepth::Eight, 2, 1, vec![1, 2, 3, 4, 5, 6, 7, 8]));
    assert_eq!(encode_png(&[1, 2, 3, 4, 5, 6], 3, 2, PngColor::Grayscale).unwrap(), gray);
}

#[test]
fn png_encoding_refuses_other_layouts() {
    for color in [PngColor::Indexed, PngColor::GrayscaleAlpha] {
        match encode_png(&[1, 2], 1, 1, color) {
            Err(ExtractError::UnsupportedPng(refused)) => assert_eq!(refused, color),
            other => panic!("unexpected outcome: {:?}", other),
        }
    }
    assert_eq!(
        ExtractError::UnsupportedPng(PngColor::Indexed).message(),
        "unsupported PNG color type: Indexed"
    );
    assert_eq!(
        ExtractError::UnsupportedPng(PngColor::GrayscaleAlpha).message(),
        "unsupported PNG color type: GrayscaleAlpha"
    );
}

#[test]
fn png_encoding_reports_the_encoder() {
    for (data, width, height) in [(vec![1u8, 2, 3], 2u32, 2u32), (vec![], 0, 1), (vec![], 1, 0)] {
        match encode_png(&data, width, height, PngColor::Grayscale) {
            Err(ExtractError::PdfStructure(words)) => assert!(!words.is_empty()),
            other => panic!("unexpected outcome: {:?}", other),
        }
    }
}

#[test]
fn rgb_images_become_png() {
    let samples = vec![10, 20, 30, 40, 50, 60];
    for color_space in [Some(ColorSpaceKind::DeviceRGB), None] {
        for bits in [Some(8), None] {
            let record = extract_image(&source(2, 1, bits, color_space, samples.clone(), None)).unwrap();
            assert_eq!(record.format, ImageFormat::Png);
            assert_eq!((record.width, record.height), (2, 1));
            assert_eq!(
                decode_png(&record.data),
                (png::ColorType::Rgb, png::BitDepth::Eight, 2, 1, samples.clone())
            );
        }
    }
}

#[test]
fn gray_images_become_png() {
    let record = extract_image(&source(2, 2, Some(8), Some(ColorSpaceKind::DeviceGray), vec![1, 2, 3, 4], None)).unwrap();
    assert_eq!(record.format, ImageFormat::Png);
    assert_eq!(
        decode_png(&record.data),
        (png::ColorType::Grayscale, png::BitDepth::Eight, 2, 2, vec![1, 2, 3, 4])
    );
}

#[test]
fn images_of_the_wrong_size_are_refused() {
    match extract_image(&source(2, 1, Some(8), Some(ColorSpaceKind::DeviceRGB), vec![1, 2, 3], None)) {
        Err(ExtractError::ImageShape(ImageShapeFault::Rgb)) => {},
        other => panic!("unexpected outcome: {:?}", other),
    }
    match extract_image(&source(2, 1, None, None, vec![0; 7], None)) {
        Err(ExtractError::ImageShape(ImageShapeFault::Rgb)) => {},
        other => panic!("unexpected outcome: {:?}", other),
    }
    match extract_image(&source(2, 1, Some(8), Some(ColorSpaceKind::DeviceGray), vec![1, 2, 3], None)) {
        Err(ExtractError::ImageShape(ImageShapeFault::Grayscale)) => {},
        other => panic!("unexpected outcome: {:?}", other),
    }
    match extract_image(&source(u32::MAX, u32::MAX, Some(8), None, vec![1, 2, 3], None)) {
        Err(ExtractError::ImageShape(ImageShapeFault::Rgb)) => {},
        other => panic!("unexpected outcome: {:?}", other),
    }
    assert_eq!(ExtractError::ImageShape(ImageShapeFault::Rgb).message(), "unexpected RGB image size");
    assert_eq!(
        ExtractError::ImageShape(ImageShapeFault::Grayscale).message(),
        "unexpected grayscale image size"
    );
}

#[test]
fn other_images_are_passed_through() {
    let cases = [
        (Some(FilterKind::DCTDecode), ImageFormat::Jpeg, "jpeg"),
        (Some(FilterKind::JPXDecode), ImageFormat::Jpx, "jpx"),
        (Some(FilterKind::JBIG2Decode), ImageFormat::Jbig2, "jbig2"),
        (Some(FilterKind::CCITTFaxDecode), ImageFormat::Fax, "fax"),
        (Some(FilterKind::FlateDecode), ImageFormat::Flate, "flate"),
        (Some(FilterKind::Other), ImageFormat::Raw, "raw"),
        (None, ImageFormat::Raw, "raw"),
    ];
    for (filter, format, tag) in cases {
        assert_eq!(filter_format(filter), format);
        assert_eq!(format.tag(), tag);
        let record = extract_image(&source(4, 4, Some(8), Some(ColorSpaceKind::Other), vec![0; 64], filter)).unwrap();
        assert_eq!(record.format, format);
        assert_eq!(record.data, vec![0xDE, 0xAD]);
        assert_eq!((record.width, record.height), (4, 4));
    }
    assert_eq!(ImageFormat::Png.tag(), "png");
    // simple colour spaces at other depths are passed through as well
    let deep = extract_image(&source(1, 1, Some(16), Some(ColorSpaceKind::DeviceRGB), vec![0; 6], None)).unwrap();
    assert_eq!(deep.format, ImageFormat::Raw);
    let bilevel = extract_image(&source(8, 1, Some(1), Some(ColorSpaceKind::DeviceGray), vec![0xF0], Some(FilterKind::FlateDecode))).unwrap();
    assert_eq!(bilevel.format, ImageFormat::Flate);
}

#[test]
fn unreadable_images_are_reported() {
    let mut broken = source(1, 1, Some(8), None, vec![], None);
    broken.decoded = Err("no data".to_string());
    match extract_image(&broken) {
        Err(ExtractError::PdfStructure(words)) => assert_eq!(words, "no data"),
        other => panic!("unexpected outcome: {:?}", other),
    }
    let mut raw = source(1, 1, Some(4), None, vec![0], None);
    raw.filtered = Err("no stream".to_string());
    match extract_image(&raw) {
        Err(ExtractError::PdfStructure(words)) => assert_eq!(words, "no stream"),
        other => panic!("unexpected outcome: {:?}", other),
    }
    assert_eq!(ExtractError::PdfStructure("no stream".to_string()).message(), "no stream");
}

#[test]
fn rendered_pages_hold_four_samples_per_pixel() {
    assert!(RenderedPage::new(2, 2, vec![0; 16]).is_some());
    assert!(RenderedPage::new(2, 2, vec![0; 15]).is_none());
    assert!(RenderedPage::new(0, 5, vec![]).is_some());
    assert!(RenderedPage::new(u32::MAX, u32::MAX, vec![0; 4]).is_none());
}

#[test]
fn cropping_copies_the_pixels() {
    let page = test_page(4, 3);
    let crop = crop_rgba(&page, PixelRect { left: 1, top: 1, right: 3, bottom: 3 });
    assert_eq!(crop, vec![1, 1, 5, 255, 1, 2, 6, 255, 2, 1, 9, 255, 2, 2, 10, 255]);
    assert_eq!(crop_rgba(&page, PixelRect { left: 0, top: 0, right: 4, bottom: 3 }), page.pixels);
    assert!(crop_rgba(&page, PixelRect { left: 2, top: 1, right: 2, bottom: 3 }).is_empty());
}

#[test]
fn rectangles_are_cut_to_the_page() {
    assert_eq!(clamp_to_page(bbox(700, 900, -5, -9), whole(612), whole(792)), bbox(0, 0, 612, 792));
    assert_eq!(clamp_to_page(bbox(10, 20, 30, 40), whole(612), whole(792)), bbox(10, 20, 30, 40));
    assert_eq!(clamp_to_page(bbox(-20, -20, -10, -10), whole(612), whole(792)), bbox(0, 0, 0, 0));
}

#[test]
fn pixels_of_a_rectangle() {
    let px = map_to_pixels(bbox(0, 0, 612, 396), whole(612), whole(792), 1224, 1584);
    assert_eq!(px, PixelRect { left: 0, top: 792, right: 1224, bottom: 1584 });
    // edges between pixels move outwards
    let inner = map_to_pixels(
        BBox { x0: fx(10, 250_000), y0: fx(20, 250_000), x1: fx(30, 250_000), y1: fx(40, 250_000) },
        whole(100),
        whole(100),
        100,
        100,
    );
    assert_eq!(inner, PixelRect { left: 10, top: 59, right: 31, bottom: 80 });
    // a span narrower than a pixel is widened by one
    let thin = map_to_pixels(
        BBox { x0: whole(10), y0: whole(20), x1: fx(10, 1), y1: fx(20, 1) },
        whole(100),
        whole(100),
        10,
        10,
    );
    assert_eq!(thin, PixelRect { left: 1, top: 7, right: 2, bottom: 8 });
}

#[test]
fn regions_come_one_for_each_rectangle() {
    let page = test_page(20, 10);
    let rectangles = vec![bbox(0, 0, 100, 50), bbox(90, 40, 10, 10), bbox(-50, 25, 50, 500)];
    let regions = extract_region_images(2, &rectangles, whole(14), whole(100), whole(50), &page).unwrap();
    assert_eq!(regions.len(), rectangles.len());
    for (index, region) in regions.iter().enumerate() {
        assert_eq!(region.index, index);
        assert_eq!(region.page_index, 2);
        assert_eq!(region.input_bbox, rectangles[index]);
        assert_eq!(region.dpi, whole(14));
        assert_eq!(region.scale, fx(0, 194_444));
        assert!(region.bbox.x0.raw <= region.bbox.x1.raw && region.bbox.y0.raw <= region.bbox.y1.raw);
        let px = region.pixel_bounds;
        assert!(px.left < px.right && px.top < px.bottom);
        let (color, depth, width, height, pixels) = decode_png(&region.image.data);
        assert_eq!((color, depth), (png::ColorType::Rgba, png::BitDepth::Eight));
        assert_eq!((width, height), (px.right - px.left, px.bottom - px.top));
        assert_eq!((region.image.width, region.image.height), (width, height));
        assert_eq!(pixels, crop_rgba(&page, px));
    }
    assert_eq!(regions[1].bbox, bbox(10, 10, 90, 40));
    assert_eq!(regions[1].pixel_bounds, PixelRect { left: 2, top: 2, right: 18, bottom: 8 });
    assert_eq!(regions[2].bbox, bbox(0, 25, 50, 50));
    assert_eq!(regions[2].pixel_bounds, PixelRect { left: 0, top: 0, right: 10, bottom: 5 });
}

#[test]
fn region_requests_are_checked() {
    let page = test_page(4, 4);
    let one = vec![bbox(0, 0, 1, 1)];
    let fault = |r: Result<_, ExtractError>| match r {
        Err(ExtractError::RenderConfig(fault)) => fault,
        Err(other) => panic!("unexpected failure: {:?}", other),
        Ok(regions) => {
            let regions: Vec<pdfvectorizer::region::RegionImage> = regions;
            panic!("unexpected success with {} regions", regions.len())
        },
    };
    // the resolution is tested first, whatever is asked for
    assert_eq!(fault(extract_region_images(0, &vec![], whole(-1), whole(10), whole(10), &page)), RenderFault::InvalidDpi);
    assert_eq!(fault(extract_region_images(0, &vec![], whole(0), whole(10), whole(10), &page)), RenderFault::InvalidDpi);
    // with a resolution and nothing asked for there is nothing to do
    assert!(extract_region_images(0, &vec![], whole(72), whole(-1), whole(-1), &page).unwrap().is_empty());
    assert!(extract_region_images(0, &vec![], Fixed::from_raw(1), whole(10), whole(10), &page).unwrap().is_empty());
    assert_eq!(fault(extract_region_images(0, &one, whole(0), whole(10), whole(10), &page)), RenderFault::InvalidDpi);
    assert_eq!(fault(extract_region_images(0, &one, whole(-72), whole(10), whole(10), &page)), RenderFault::InvalidDpi);
    assert_eq!(fault(extract_region_images(0, &one, whole(72), whole(0), whole(10), &page)), RenderFault::NonPositivePage);
    assert_eq!(fault(extract_region_images(0, &one, whole(72), whole(10), whole(-1), &page)), RenderFault::NonPositivePage);
    assert_eq!(
        fault(extract_region_images(0, &one, Fixed::from_raw(71), whole(10), whole(10), &page)),
        RenderFault::InvalidScale
    );
    let nothing = RenderedPage::new(0, 4, vec![]).unwrap();
    assert_eq!(fault(extract_region_images(0, &one, whole(72), whole(10), whole(10), &nothing)), RenderFault::ZeroRendered);
    let outside = vec![bbox(0, 0, 1, 1), bbox(20, 20, 30, 30)];
    assert_eq!(
        fault(extract_region_images(0, &outside, whole(72), whole(10), whole(10), &page)),
        RenderFault::OutsidePage(1)
    );
    let flat = vec![bbox(2, 2, 2, 5)];
    assert_eq!(
        fault(extract_region_images(0, &flat, whole(72), whole(10), whole(10), &page)),
        RenderFault::OutsidePage(0)
    );
    match region_image(4, 0, bbox(11, 0, 12, 1), whole(72), whole(10), whole(10), &page) {
        Err(ExtractError::RenderConfig(RenderFault::OutsidePage(4))) => {},
        other => panic!("unexpected outcome: {:?}", other),
    }
}

#[test]
fn rendering_is_planned_before_the_page_is_read() {
    assert_eq!(plan_region_render(0, whole(144)).unwrap(), None);
    assert_eq!(plan_region_render(0, Fixed::from_raw(1)).unwrap(), None);
    for count in [0usize, 1, 5] {
        for dpi in [whole(0), whole(-1), Fixed::from_raw(i64::MIN)] {
            match plan_region_render(count, dpi) {
                Err(ExtractError::RenderConfig(RenderFault::InvalidDpi)) => {},
                other => panic!("unexpected outcome: {:?}", other),
            }
        }
    }
    assert_eq!(plan_region_render(3, whole(144)).unwrap(), Some(whole(2)));
    assert_eq!(plan_region_render(1, whole(72)).unwrap(), Some(whole(1)));
    match plan_region_render(1, whole(0)) {
        Err(ExtractError::RenderConfig(RenderFault::InvalidDpi)) => {},
        other => panic!("unexpected outcome: {:?}", other),
    }
    match plan_region_render(1, Fixed::from_raw(10)) {
        Err(ExtractError::RenderConfig(RenderFault::InvalidScale)) => {},
        other => panic!("unexpected outcome: {:?}", other),
    }
    assert_eq!(renderer_page_number(0).unwrap(), 0);
    assert_eq!(renderer_page_number(65535).unwrap(), 65535);
    match renderer_page_number(65536) {
        Err(ExtractError::RenderConfig(RenderFault::PageIndexTooLarge)) => {},
        other => panic!("unexpected outcome: {:?}", other),
    }
}

#[test]
fn failures_are_reported_in_words() {
    let report = |fault: RenderFault| ExtractError::RenderConfig(fault).message();
    assert_eq!(report(RenderFault::InvalidDpi), "dpi must be a positive finite value");
    assert_eq!(report(RenderFault::PageIndexTooLarge), "page_index exceeds Pdfium limits (must be <= 65535)");
    assert_eq!(report(RenderFault::NonPositivePage), "page has non-positive dimensions");
    assert_eq!(report(RenderFault::InvalidScale), "invalid rendering scale computed from dpi");
    assert_eq!(report(RenderFault::ZeroRendered), "rendered page has zero dimensions");
    assert_eq!(report(RenderFault::OutsidePage(12)), "rectangle at index 12 does not overlap the page bounds");
    assert_eq!(report(RenderFault::EmptyRegion(0)), "rectangle at index 0 produced an empty region after scaling");
    assert_eq!(RenderFault::OutsidePage(3).message(), "rectangle at index 3 does not overlap the page bounds");
    let binding = |fault: BindingFault| ExtractError::NativeBinding(fault).message();
    assert_eq!(
        binding(BindingFault::LoadLibrary("not found".to_string())),
        "Failed to load Pdfium library: not found. Place a compatible Pdfium shared library in the working directory or install it system-wide."
    );
    assert_eq!(
        binding(BindingFault::LoadFunctionName("FPDF_Init".to_string())),
        "Failed to resolve Pdfium symbol 'FPDF_Init'. Ensure the Pdfium library matches the crate configuration."
    );
    assert_eq!(binding(BindingFault::Other("out of memory".to_string())), "out of memory");
    assert_eq!(PngColor::Rgba.name(), "Rgba");
    assert_eq!(PngColor::Rgb.name(), "Rgb");
    assert_eq!(PngColor::Grayscale.name(), "Grayscale");
}

#[test]
fn images_that_are_passed_through_are_not_decoded() {
    for (bits, color_space, filter, format) in [
        (Some(8), Some(ColorSpaceKind::Other), Some(FilterKind::JPXDecode), ImageFormat::Jpx),
        (Some(1), Some(ColorSpaceKind::DeviceGray), Some(FilterKind::JBIG2Decode), ImageFormat::Jbig2),
        (Some(16), None, Some(FilterKind::DCTDecode), ImageFormat::Jpeg),
        (Some(4), Some(ColorSpaceKind::DeviceRGB), None, ImageFormat::Raw),
    ] {
        let mut image = source(5, 7, bits, color_space, vec![], filter);
        image.decoded = Err("no decoder".to_string());
        let record = extract_image(&image).unwrap();
        assert_eq!(record.format, format);
        assert_eq!(record.data, vec![0xDE, 0xAD]);
        assert_eq!((record.width, record.height), (5, 7));
    }
    // what is encoded anew has to be decoded
    for color_space in [None, Some(ColorSpaceKind::DeviceRGB), Some(ColorSpaceKind::DeviceGray)] {
        let mut image = source(1, 1, Some(8), color_space, vec![], Some(FilterKind::FlateDecode));
        image.decoded = Err("no decoder".to_string());
        match extract_image(&image) {
            Err(ExtractError::PdfStructure(words)) => assert_eq!(words, "no decoder"),
            other => panic!("unexpected outcome: {:?}", other),
        }
    }
    // and its stream is not looked at
    let mut image = source(1, 1, None, None, vec![1, 2, 3], None);
    image.filtered = Err("no stream".to_string());
    assert_eq!(extract_image(&image).unwrap().format, ImageFormat::Png);
}
