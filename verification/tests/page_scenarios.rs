use pdfvectorizer::error::ExtractError;
use pdfvectorizer::figures::{
    assign_captions_to_images, assign_captions_to_objects, build_image_layouts,
    build_object_layouts, ImageLayout,
};
use pdfvectorizer::fixed::Fixed;
use pdfvectorizer::font::{NamedFont, ResolvedFont, WidthTable};
use pdfvectorizer::geometry::{BBox, Matrix, Point, Rect};
use pdfvectorizer::graphics::{NamedXObject, PositionedImage, XObject};
use pdfvectorizer::imaging::{
    ColorSpaceKind, FilterKind, FilteredData, ImageFormat, ImageResult, ImageSource,
};
use pdfvectorizer::layout::{build_text_layouts, FinalTextLayout};
use pdfvectorizer::ops::{Op, TextItem};
use pdfvectorizer::page::{
    build_page_layouts, extract_images, extract_layouts, extract_page_content, extract_paths,
    extract_text_with_coords, LayoutColors, PageItem, PageSource,
};
use pdfvectorizer::paths::{PathKind, PathSegment};
use pdfvectorizer::region::{extract_region_images, RenderedPage};
use pdfvectorizer::text::TextBlock;

fn fx(units: i64, millionths: i64) -> Fixed {
    Fixed::from_raw(units * 1_000_000 + millionths)
}

fn whole(units: i64) -> Fixed {
    fx(units, 0)
}

fn matrix(a: i64, b: i64, c: i64, d: i64, e: i64, f: i64) -> Matrix {
    Matrix { a: whole(a), b: whole(b), c: whole(c), d: whole(d), e: whole(e), f: whole(f) }
}

fn simple_font(name: &str, first_char: usize, widths: &[i64]) -> NamedFont {
    NamedFont {
        name: name.to_string(),
        font: ResolvedFont {
            widths: Some(WidthTable {
                values: widths.iter().map(|w| whole(*w)).collect(),
                default: whole(0),
                first_char,
            }),
            to_unicode: None,
            is_cid: false,
            metrics: None,
        },
    }
}

fn page(ops: Vec<Op>, fonts: Vec<NamedFont>, xobjects: Option<Vec<NamedXObject>>) -> PageSource {
    PageSource { page_index: 0, operations: Some(ops), fonts, xobjects }
}

fn gray_image(width: u32, height: u32, samples: Vec<u8>) -> ImageSource {
    ImageSource {
        width,
        height,
        bits_per_component: Some(8),
        color_space: Some(ColorSpaceKind::DeviceGray),
        decoded: Ok(samples.clone()),
        filtered: Ok(FilteredData { data: samples, filter: None }),
    }
}

fn decode_png(data: &[u8]) -> (png::ColorType, png::BitDepth, u32, u32, Vec<u8>) {
    let decoder = png::Decoder::new(data);
    let mut reader = decoder.read_info().expect("a PNG header");
    let mut buffer = vec![0u8; reader.output_buffer_size()];
    let info = reader.next_frame(&mut buffer).expect("a PNG frame");
    buffer.truncate(info.buffer_size());
    (info.color_type, info.bit_depth, info.width, info.height, buffer)
}

fn block(text: &str, x0: i64, y0: i64, x1: i64, y1: i64) -> TextBlock {
    TextBlock {
        text: text.to_string(),
        x0: whole(x0),
        y0: whole(y0),
        x1: whole(x1),
        y1: whole(y1),
        baseline_x: whole(x0),
        baseline_y: whole(y0),
    }
}

fn placed(name: &str, x0: i64, y0: i64, x1: i64, y1: i64) -> PositionedImage {
    PositionedImage {
        name: name.to_string(),
        x0: whole(x0),
        y0: whole(y0),
        x1: whole(x1),
        y1: whole(y1),
        image: ImageResult { data: vec![1, 2, 3], width: 1, height: 1, format: ImageFormat::Raw },
    }
}

fn bbox(x0: i64, y0: i64, x1: i64, y1: i64) -> BBox {
    BBox { x0: whole(x0), y0: whole(y0), x1: whole(x1), y1: whole(y1) }
}

#[test]
fn empty_page_gives_empty_lists() {
    let source = PageSource { page_index: 7, operations: None, fonts: vec![], xobjects: None };
    assert!(extract_text_with_coords(&source).is_empty());
    assert!(extract_images(&source).unwrap().is_empty());
    assert!(extract_paths(&source).is_empty());
    let layouts = extract_layouts(&source, None, None, None).unwrap();
    assert!(layouts.text.is_empty());
    assert!(layouts.images.is_empty());
    assert!(layouts.objects.is_empty());
    let content = extract_page_content(&source).unwrap();
    assert_eq!(content.page_index, 7);
    assert!(content.text.is_empty());
    assert!(content.images.is_empty());
    assert!(content.objects.is_empty());
    assert!(content.layouts.text.is_empty());
    assert!(content.layouts.images.is_empty());
    assert!(content.layouts.objects.is_empty());
    assert!(content.items.is_empty());
}

#[test]
fn empty_content_stream_gives_empty_lists() {
    let source = page(vec![], vec![], None);
    assert!(extract_text_with_coords(&source).is_empty());
    assert!(extract_images(&source).unwrap().is_empty());
    assert!(extract_paths(&source).is_empty());
    let content = extract_page_content(&source).unwrap();
    assert!(content.items.is_empty());
}

#[test]
fn single_ascii_run() {
    let mut widths = vec![0i64; 34];
    widths[0] = 500;
    widths[33] = 278;
    let source = page(
        vec![
            Op::BeginText,
            Op::TextFont { name: "F1".to_string(), size: whole(10) },
            Op::TextDraw { text: b"Hi".to_vec() },
            Op::EndText,
        ],
        vec![simple_font("F1", 72, &widths)],
        None,
    );
    let runs = extract_text_with_coords(&source);
    assert_eq!(runs.len(), 1);
    assert_eq!(runs[0].text, "Hi");
    assert_eq!(runs[0].baseline_x, whole(0));
    assert_eq!(runs[0].baseline_y, whole(0));
    assert_eq!(runs[0].x0, whole(0));
    assert_eq!(runs[0].x1, fx(7, 780_000));
    assert_eq!(runs[0].y0, whole(-2));
    assert_eq!(runs[0].y1, whole(8));
}

#[test]
fn adjusted_text_with_kerning() {
    let source = page(
        vec![
            Op::BeginText,
            Op::TextFont { name: "F1".to_string(), size: whole(12) },
            Op::TextDrawAdjusted {
                array: vec![
                    TextItem::Text(b"A".to_vec()),
                    TextItem::Spacing(whole(100)),
                    TextItem::Text(b"V".to_vec()),
                ],
            },
            Op::TextDraw { text: b"A".to_vec() },
            Op::EndText,
        ],
        vec![simple_font("F1", 0, &[500; 128])],
        None,
    );
    let runs = extract_text_with_coords(&source);
    assert_eq!(runs.len(), 3);
    assert_eq!(runs[0].text, "A");
    assert_eq!((runs[0].baseline_x, runs[0].baseline_y), (whole(0), whole(0)));
    assert_eq!(runs[0].x1, whole(6));
    assert_eq!(runs[1].text, "V");
    assert_eq!((runs[1].baseline_x, runs[1].baseline_y), (fx(4, 800_000), whole(0)));
    assert_eq!(runs[1].x1, fx(10, 800_000));
    assert_eq!(runs[2].baseline_x, fx(10, 800_000));
}

#[test]
fn image_placement_under_ctm() {
    let source = page(
        vec![
            Op::Save,
            Op::Transform { matrix: matrix(100, 0, 0, 50, 20, 30) },
            Op::XObject { name: "Im0".to_string() },
            Op::Restore,
        ],
        vec![],
        Some(vec![NamedXObject {
            name: "Im0".to_string(),
            object: Ok(XObject::Image(gray_image(2, 1, vec![0xFF, 0x00]))),
        }]),
    );
    let images = extract_images(&source).unwrap();
    assert_eq!(images.len(), 1);
    let image = &images[0];
    assert_eq!(image.name, "Im0");
    assert_eq!((image.x0, image.y0, image.x1, image.y1), (whole(20), whole(30), whole(120), whole(80)));
    assert_eq!(image.image.format, ImageFormat::Png);
    assert_eq!((image.image.width, image.image.height), (2, 1));
    let (color, depth, width, height, pixels) = decode_png(&image.image.data);
    assert_eq!(color, png::ColorType::Grayscale);
    assert_eq!(depth, png::BitDepth::Eight);
    assert_eq!((width, height), (2, 1));
    assert_eq!(pixels, vec![0xFF, 0x00]);
}

#[test]
fn caption_attachment() {
    let blocks = vec![block("Fig. 1 A figure", 50, 380, 150, 395)];
    let images = vec![placed("Im0", 50, 500, 150, 500), placed("Im1", 50, 400, 150, 400)];
    let layouts = build_page_layouts(&blocks, &images, &vec![], LayoutColors::new(None, None, None));
    assert_eq!(layouts.text.len(), 1);
    assert!(layouts.text[0].is_caption);
    assert_eq!(layouts.images.len(), 2);
    assert!(layouts.images[0].captions.is_empty());
    assert_eq!(layouts.images[0].bbox, bbox(50, 500, 150, 500));
    assert_eq!(layouts.images[1].captions.len(), 1);
    assert_eq!(layouts.images[1].captions[0].text, "Fig. 1 A figure");
    assert_eq!(layouts.images[1].captions[0].bbox, bbox(50, 380, 150, 395));
    assert_eq!(layouts.images[1].captions[0].layout_index, 0);
    assert_eq!(layouts.images[1].bbox, bbox(50, 380, 150, 400));
}

#[test]
fn caption_attachment_on_image_layouts() {
    let mut layouts = vec![
        ImageLayout { name: "Im0".to_string(), bbox: bbox(50, 500, 150, 500), captions: vec![] },
        ImageLayout { name: "Im1".to_string(), bbox: bbox(50, 400, 150, 400), captions: vec![] },
    ];
    let text = vec![FinalTextLayout {
        bbox: bbox(50, 380, 150, 395),
        lines: vec!["Fig. 1 A figure".to_string()],
        combined: "Fig. 1 A figure".to_string(),
        is_caption: true,
    }];
    let mut assigned = vec![false];
    assign_captions_to_images(&mut layouts, &text, &vec![0], &mut assigned);
    assert_eq!(assigned, vec![true]);
    assert!(layouts[0].captions.is_empty());
    assert_eq!(layouts[1].captions.len(), 1);
    assert_eq!(layouts[1].bbox, bbox(50, 380, 150, 400));
}

#[test]
fn region_crop_with_y_flip() {
    let width = 1224u32;
    let height = 1584u32;
    let mut pixels = vec![0u8; (width * height * 4) as usize];
    for row in 0..height as usize {
        for column in 0..width as usize {
            let at = (row * width as usize + column) * 4;
            pixels[at] = (row % 251) as u8;
            pixels[at + 1] = (column % 241) as u8;
            pixels[at + 2] = 7;
            pixels[at + 3] = 255;
        }
    }
    let rendered = RenderedPage::new(width, height, pixels).unwrap();
    let regions = extract_region_images(
        3,
        &vec![bbox(0, 0, 612, 396)],
        whole(144),
        whole(612),
        whole(792),
        &rendered,
    )
    .unwrap();
    assert_eq!(regions.len(), 1);
    let region = &regions[0];
    assert_eq!(region.index, 0);
    assert_eq!(region.page_index, 3);
    assert_eq!(region.scale, whole(2));
    assert_eq!(region.dpi, whole(144));
    assert_eq!(region.input_bbox, bbox(0, 0, 612, 396));
    assert_eq!(region.bbox, bbox(0, 0, 612, 396));
    let px = region.pixel_bounds;
    assert_eq!((px.left, px.top, px.right, px.bottom), (0, 792, 1224, 1584));
    assert_eq!((region.image.width, region.image.height), (1224, 792));
    assert_eq!(region.image.format, ImageFormat::Png);
    let (color, depth, w, h, decoded) = decode_png(&region.image.data);
    assert_eq!(color, png::ColorType::Rgba);
    assert_eq!(depth, png::BitDepth::Eight);
    assert_eq!((w, h), (1224, 792));
    assert_eq!(decoded.len(), 1224 * 792 * 4);
    assert_eq!(&decoded[0..4], &[(792 % 251) as u8, 0, 7, 255]);
    let last = decoded.len() - 4;
    assert_eq!(&decoded[last..], &[(1583 % 251) as u8, (1223 % 241) as u8, 7, 255]);
}

#[test]
fn page_content_lists_items_in_order() {
    let source = page(
        vec![
            Op::BeginText,
            Op::TextDraw { text: b"one".to_vec() },
            Op::EndText,
            Op::MoveTo { p: Point { x: whole(0), y: whole(0) } },
            Op::LineTo { p: Point { x: whole(10), y: whole(0) } },
            Op::InlineImage { image: gray_image(1, 1, vec![9]) },
            Op::BeginText,
            Op::TextDraw { text: b"two".to_vec() },
            Op::EndText,
        ],
        vec![],
        None,
    );
    let content = extract_page_content(&source).unwrap();
    assert_eq!(content.page_index, 0);
    assert_eq!(content.text.len(), 2);
    assert_eq!(content.images.len(), 1);
    assert_eq!(content.images[0].name, "inline_1");
    assert_eq!(content.objects.len(), 1);
    assert_eq!(
        content.items,
        vec![PageItem::Text(0), PageItem::Text(1), PageItem::Image(0), PageItem::Object(0)]
    );
    assert_eq!(content.layouts.colors, LayoutColors::new(None, None, None));
    assert_eq!(content.layouts.images.len(), 1);
    assert_eq!(content.layouts.objects.len(), 1);
    assert_eq!(content.layouts.objects[0].kinds, vec![PathKind::Line]);
}

#[test]
fn captions_go_to_one_figure_only() {
    let blocks = vec![block("Figure 2", 0, 100, 50, 110), block("Table 1", 200, 100, 250, 110)];
    let images = vec![placed("Im0", 0, 120, 50, 170)];
    let segments = vec![PathSegment::Rect(
        Point { x: whole(0), y: whole(40) },
        Point { x: whole(50), y: whole(40) },
        Point { x: whole(50), y: whole(90) },
        Point { x: whole(0), y: whole(90) },
        Point { x: whole(0), y: whole(40) },
    ), PathSegment::Line(
        Point { x: whole(200), y: whole(50) },
        Point { x: whole(250), y: whole(50) },
    )];
    let layouts = build_page_layouts(&blocks, &images, &segments, LayoutColors::new(None, None, None));
    assert_eq!(layouts.text.len(), 2);
    let mut seen: Vec<usize> = Vec::new();
    for image in &layouts.images {
        for caption in &image.captions {
            seen.push(caption.layout_index);
        }
    }
    for object in &layouts.objects {
        for caption in &object.captions {
            seen.push(caption.layout_index);
        }
    }
    assert_eq!(seen.len(), 2);
    assert_ne!(seen[0], seen[1]);
    assert_eq!(layouts.images[0].captions.len(), 1);
    assert_eq!(layouts.images[0].captions[0].text, "Figure 2");
    assert_eq!(layouts.objects.len(), 2);
    assert!(layouts.objects[0].captions.is_empty());
    assert_eq!(layouts.objects[1].captions.len(), 1);
    assert_eq!(layouts.objects[1].captions[0].text, "Table 1");
}

#[test]
fn assigned_captions_are_passed_over() {
    let mut images = build_image_layouts(&vec![placed("Im0", 0, 120, 50, 170)]);
    let mut objects = build_object_layouts(&vec![PathSegment::Line(
        Point { x: whole(0), y: whole(90) },
        Point { x: whole(50), y: whole(90) },
    )]);
    let text = build_text_layouts(&vec![block("Figure 2", 0, 100, 50, 110)]);
    let mut assigned = vec![false];
    assign_captions_to_images(&mut images, &text, &vec![0, 0], &mut assigned);
    assign_captions_to_objects(&mut objects, &text, &vec![0], &mut assigned);
    assert_eq!(images[0].captions.len(), 1);
    assert!(objects[0].captions.is_empty());
    assert_eq!(objects[0].bbox, bbox(0, 90, 50, 90));
}

#[test]
fn unresolved_object_fails_the_images() {
    let source = page(
        vec![Op::XObject { name: "Im0".to_string() }],
        vec![],
        Some(vec![NamedXObject { name: "Im0".to_string(), object: Err("broken".to_string()) }]),
    );
    match extract_images(&source) {
        Err(ExtractError::PdfStructure(words)) => assert_eq!(words, "broken"),
        other => panic!("unexpected outcome: {:?}", other),
    }
    assert!(extract_layouts(&source, None, None, None).is_err());
    assert!(extract_page_content(&source).is_err());
    assert!(extract_text_with_coords(&source).is_empty());
}

#[test]
fn unknown_and_other_objects_are_passed_over() {
    let source = page(
        vec![
            Op::XObject { name: "Missing".to_string() },
            Op::XObject { name: "Form".to_string() },
            Op::Rect { rect: Rect { x: whole(1), y: whole(2), width: whole(3), height: whole(4) } },
        ],
        vec![],
        Some(vec![NamedXObject { name: "Form".to_string(), object: Ok(XObject::Other) }]),
    );
    assert!(extract_images(&source).unwrap().is_empty());
    let without_resources = page(vec![Op::XObject { name: "Im0".to_string() }], vec![], None);
    assert!(extract_images(&without_resources).unwrap().is_empty());
}

#[test]
fn passthrough_image_keeps_its_stream() {
    let image = ImageSource {
        width: 3,
        height: 2,
        bits_per_component: Some(1),
        color_space: Some(ColorSpaceKind::DeviceGray),
        decoded: Ok(vec![0xAA]),
        filtered: Ok(FilteredData { data: vec![1, 2, 3, 4], filter: Some(FilterKind::CCITTFaxDecode) }),
    };
    let source = page(vec![Op::InlineImage { image }], vec![], None);
    let images = extract_images(&source).unwrap();
    assert_eq!(images[0].name, "inline_1");
    assert_eq!(images[0].image.format, ImageFormat::Fax);
    assert_eq!(images[0].image.data, vec![1, 2, 3, 4]);
    assert_eq!((images[0].x0, images[0].y0, images[0].x1, images[0].y1), (whole(0), whole(0), whole(1), whole(1)));
}
