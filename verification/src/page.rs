//! The operations on a page: its runs of text, its images, its path segments,
//! its layouts with their captions, and all of them together.

use crate::error::{ExtractError, ExtractErrorView};
use crate::figures::{
    assign_captions_to_images, assign_captions_to_objects, attach_all, attachment_sound,
    build_image_layouts, build_object_layouts, caption_of, captions_for, frames, image_layouts_view,
    layout_boxes, lemma_attach_all, lemma_captions_apart, lemma_captions_for, merged,
    object_layouts_view, shape_boxes, unattached, Attachment, Figure, ImageLayout, ImageLayoutView,
    ObjectLayout, ObjectLayoutView, ObjectShape,
};
use crate::fixed::Fixed;
use crate::font::NamedFont;
use crate::geometry::{canonical_box, canonicalize, BBox};
use crate::graphics::{
    collect_positioned_images, images_view, positioned_images, NamedXObject, PositionedImage,
    PositionedImageView,
};
use crate::layout::{
    build_text_layouts, from_the_top, layouts_view, text_layouts, FinalTextLayout,
    FinalTextLayoutView,
};
use crate::ops::Op;
use crate::paths::{collect_paths, path_segments, PathSegment};
use crate::text::{blocks_view, collect_text_blocks, text_runs, TextBlock, TextBlockView};
use vstd::prelude::*;

verus! {

/// A colour by its red, green and blue parts, each between zero and one.
#[derive(Clone, Copy, Debug, PartialEq, Eq, Structural)]
pub struct Color {
    pub r: Fixed,
    pub g: Fixed,
    pub b: Fixed,
}

/// The colours in which the layouts of a page are shown.
#[derive(Clone, Copy, Debug, PartialEq, Eq, Structural)]
pub struct LayoutColors {
    pub text: Color,
    pub image: Color,
    pub object: Color,
}

/// A rectangle to be outlined, corners in order, with its colour.
#[derive(Clone, Copy, Debug, PartialEq, Eq, Structural)]
pub struct RectangleOutline {
    pub bbox: BBox,
    pub color: Color,
}

impl Color {
    /// The colour of text layouts where none is chosen.
    pub open spec fn text_default() -> Color {
        Color { r: Fixed { raw: 120_000 }, g: Fixed { raw: 450_000 }, b: Fixed { raw: 850_000 } }
    }

    /// The colour of image layouts where none is chosen.
    pub open spec fn image_default() -> Color {
        Color { r: Fixed { raw: 230_000 }, g: Fixed { raw: 700_000 }, b: Fixed { raw: 350_000 } }
    }

    /// The colour of object layouts where none is chosen.
    pub open spec fn object_default() -> Color {
        Color { r: Fixed { raw: 860_000 }, g: Fixed { raw: 330_000 }, b: Fixed { raw: 420_000 } }
    }

    /// The colour of a rectangle outline where none is chosen.
    pub open spec fn outline_default() -> Color {
        Color { r: Fixed { raw: 950_000 }, g: Fixed { raw: 400_000 }, b: Fixed { raw: 50_000 } }
    }
}

/// The colour chosen, or the other where none is.
pub open spec fn color_or(chosen: Option<Color>, other: Color) -> Color {
    match chosen {
        Some(c) => c,
        None => other,
    }
}

impl LayoutColors {
    /// The colours of the layouts: each as chosen, or its default.
    pub open spec fn chosen(text: Option<Color>, image: Option<Color>, object: Option<Color>) -> LayoutColors {
        LayoutColors {
            text: color_or(text, Color::text_default()),
            image: color_or(image, Color::image_default()),
            object: color_or(object, Color::object_default()),
        }
    }

    /// The colours of the layouts: each as chosen, or its default.
    pub fn new(text: Option<Color>, image: Option<Color>, object: Option<Color>) -> (colors:
        LayoutColors)
        ensures
            colors == LayoutColors::chosen(text, image, object),
    {
        let text_default = Color {
            r: Fixed::from_raw(120_000),
            g: Fixed::from_raw(450_000),
            b: Fixed::from_raw(850_000),
        };
        let image_default = Color {
            r: Fixed::from_raw(230_000),
            g: Fixed::from_raw(700_000),
            b: Fixed::from_raw(350_000),
        };
        let object_default = Color {
            r: Fixed::from_raw(860_000),
            g: Fixed::from_raw(330_000),
            b: Fixed::from_raw(420_000),
        };
        LayoutColors {
            text: match text {
                Some(c) => c,
                None => text_default,
            },
            image: match image {
                Some(c) => c,
                None => image_default,
            },
            object: match object {
                Some(c) => c,
                None => object_default,
            },
        }
    }
}

/// Makes the outline of a rectangle from two opposite corners.
pub fn make_rectangle_outline(x0: Fixed, y0: Fixed, x1: Fixed, y1: Fixed, color: Option<Color>) -> (outline:
    RectangleOutline)
    ensures
        outline.bbox == canonical_box(x0, y0, x1, y1),
        outline.bbox.ordered(),
        outline.color == color_or(color, Color::outline_default()),
{
    let fallback = Color {
        r: Fixed::from_raw(950_000),
        g: Fixed::from_raw(400_000),
        b: Fixed::from_raw(50_000),
    };
    RectangleOutline {
        bbox: canonicalize(x0, y0, x1, y1),
        color: match color {
            Some(c) => c,
            None => fallback,
        },
    }
}

/// A page as it was read: its place in the document, the operators of its
/// content if it has any, its fonts, and its external objects if it has
/// resources.
#[derive(Debug)]
pub struct PageSource {
    pub page_index: usize,
    pub operations: Option<Vec<Op>>,
    pub fonts: Vec<NamedFont>,
    pub xobjects: Option<Vec<NamedXObject>>,
}

/// The layouts of a page: blocks of text, images and drawn objects, the
/// figures with their captions, and the colours to show them in.
#[derive(Debug)]
pub struct PageLayouts {
    pub text: Vec<FinalTextLayout>,
    pub images: Vec<ImageLayout>,
    pub objects: Vec<ObjectLayout>,
    pub colors: LayoutColors,
}

/// The layouts of a page with their lists as sequences.
pub struct PageLayoutsView {
    pub text: Seq<FinalTextLayoutView>,
    pub images: Seq<ImageLayoutView>,
    pub objects: Seq<ObjectLayoutView>,
    pub colors: LayoutColors,
}

impl View for PageLayouts {
    type V = PageLayoutsView;

    open spec fn view(&self) -> PageLayoutsView {
        PageLayoutsView {
            text: layouts_view(self.text@),
            images: image_layouts_view(self.images@),
            objects: object_layouts_view(self.objects@),
            colors: self.colors,
        }
    }
}

/// One item of a page, by its place in the list of its kind.
#[derive(Clone, Copy, Debug, PartialEq, Eq, Structural)]
pub enum PageItem {
    Text(usize),
    Image(usize),
    Object(usize),
}

/// Everything that was found on a page.
#[derive(Debug)]
pub struct PageContent {
    pub page_index: usize,
    pub text: Vec<TextBlock>,
    pub images: Vec<PositionedImage>,
    pub objects: Vec<PathSegment>,
    pub layouts: PageLayouts,
    /// The runs of text, then the images, then the path segments.
    pub items: Vec<PageItem>,
}

/// The content of a page with its lists as sequences.
pub struct PageContentView {
    pub page_index: usize,
    pub text: Seq<TextBlockView>,
    pub images: Seq<PositionedImageView>,
    pub objects: Seq<PathSegment>,
    pub layouts: PageLayoutsView,
    pub items: Seq<PageItem>,
}

impl View for PageContent {
    type V = PageContentView;

    open spec fn view(&self) -> PageContentView {
        PageContentView {
            page_index: self.page_index,
            text: blocks_view(self.text@),
            images: images_view(self.images@),
            objects: self.objects@,
            layouts: self.layouts@,
            items: self.items@,
        }
    }
}

/// The positions of the text layouts that read like captions, in their
/// order.
pub open spec fn caption_positions(layouts: Seq<FinalTextLayoutView>) -> Seq<usize>
    decreases layouts.len(),
{
    if layouts.len() == 0 {
        Seq::<usize>::empty()
    } else {
        let before = caption_positions(layouts.drop_last());
        if layouts.last().is_caption {
            before.push((layouts.len() - 1) as usize)
        } else {
            before
        }
    }
}

/// The layouts of the images with the captions that were attached.
pub open spec fn captioned_images(
    images: Seq<PositionedImageView>,
    state: Attachment,
    texts: Seq<FinalTextLayoutView>,
) -> Seq<ImageLayoutView> {
    Seq::new(
        images.len(),
        |t: int|
            ImageLayoutView {
                name: images[t].name,
                bbox: state.figures[t],
                captions: captions_for(state.pairs, t, texts),
            },
    )
}

/// The layouts of the drawn objects with the captions that were attached.
pub open spec fn captioned_objects(
    shapes: Seq<ObjectShape>,
    state: Attachment,
    texts: Seq<FinalTextLayoutView>,
) -> Seq<ObjectLayoutView> {
    Seq::new(
        shapes.len(),
        |t: int|
            ObjectLayoutView {
                bbox: state.figures[t],
                kinds: shapes[t].kinds,
                captions: captions_for(state.pairs, t, texts),
            },
    )
}

/// The boxes of the images.
pub open spec fn image_boxes(images: Seq<PositionedImageView>) -> Seq<BBox> {
    images.map_values(|i: PositionedImageView| i.bbox())
}

/// The captions as they are attached to the images: every caption of the
/// page is offered to the images first.
pub open spec fn image_attachment(blocks: Seq<TextBlockView>, images: Seq<PositionedImageView>) -> Attachment {
    let texts = text_layouts(blocks);
    attach_all(
        unattached(image_boxes(images), Seq::new(texts.len(), |i: int| false)),
        layout_boxes(texts),
        caption_positions(texts),
    )
}

/// The captions as they are attached to the drawn objects: those that found
/// no image are offered to the objects.
pub open spec fn object_attachment(
    blocks: Seq<TextBlockView>,
    images: Seq<PositionedImageView>,
    segments: Seq<PathSegment>,
) -> Attachment {
    let texts = text_layouts(blocks);
    attach_all(
        unattached(shape_boxes(merged(segments)), image_attachment(blocks, images).assigned),
        layout_boxes(texts),
        caption_positions(texts),
    )
}

/// The layouts of a page with the given runs, images and path segments.
pub open spec fn laid_out(
    blocks: Seq<TextBlockView>,
    images: Seq<PositionedImageView>,
    segments: Seq<PathSegment>,
    colors: LayoutColors,
) -> PageLayoutsView {
    let texts = text_layouts(blocks);
    PageLayoutsView {
        text: texts,
        images: captioned_images(images, image_attachment(blocks, images), texts),
        objects: captioned_objects(
            merged(segments),
            object_attachment(blocks, images, segments),
            texts,
        ),
        colors,
    }
}

/// No caption stands in two places: any two captions in the lists of the
/// figures of a page, images and objects alike, come from different text
/// layouts.
pub open spec fn captions_apart(layouts: PageLayoutsView) -> bool {
    &&& forall|t1: int, i1: int, t2: int, i2: int|
        0 <= t1 < layouts.images.len() && 0 <= i1 < layouts.images[t1].captions.len() && 0 <= t2
            < layouts.images.len() && 0 <= i2 < layouts.images[t2].captions.len() && (t1 != t2
            || i1 != i2) ==> (#[trigger] layouts.images[t1].captions[i1]).layout_index != (
        #[trigger] layouts.images[t2].captions[i2]).layout_index
    &&& forall|t1: int, i1: int, t2: int, i2: int|
        0 <= t1 < layouts.objects.len() && 0 <= i1 < layouts.objects[t1].captions.len() && 0
            <= t2 < layouts.objects.len() && 0 <= i2 < layouts.objects[t2].captions.len() && (t1
            != t2 || i1 != i2) ==> (#[trigger] layouts.objects[t1].captions[i1]).layout_index != (
        #[trigger] layouts.objects[t2].captions[i2]).layout_index
    &&& forall|t1: int, i1: int, t2: int, i2: int|
        0 <= t1 < layouts.images.len() && 0 <= i1 < layouts.images[t1].captions.len() && 0 <= t2
            < layouts.objects.len() && 0 <= i2 < layouts.objects[t2].captions.len() ==> (
        #[trigger] layouts.images[t1].captions[i1]).layout_index != (
        #[trigger] layouts.objects[t2].captions[i2]).layout_index
}

/// Every box of the layouts is in order: those of the blocks of text, of the
/// images and of the drawn objects, and those of the captions.
pub open spec fn boxes_in_order(layouts: PageLayoutsView) -> bool {
    &&& forall|i: int| 0 <= i < layouts.text.len() ==> (#[trigger] layouts.text[i]).bbox.ordered()
    &&& forall|i: int| 0 <= i < layouts.images.len() ==> (#[trigger] layouts.images[i]).bbox.ordered()
    &&& forall|i: int|
        0 <= i < layouts.objects.len() ==> (#[trigger] layouts.objects[i]).bbox.ordered()
    &&& forall|t: int, i: int|
        0 <= t < layouts.images.len() && 0 <= i < layouts.images[t].captions.len() ==> (
        #[trigger] layouts.images[t].captions[i]).bbox.ordered()
    &&& forall|t: int, i: int|
        0 <= t < layouts.objects.len() && 0 <= i < layouts.objects[t].captions.len() ==> (
        #[trigger] layouts.objects[t].captions[i]).bbox.ordered()
}

/// The positions of the captions are positions of text layouts.
pub proof fn lemma_caption_positions(layouts: Seq<FinalTextLayoutView>)
    requires
        layouts.len() <= usize::MAX,
    ensures
        forall|k: int|
            0 <= k < caption_positions(layouts).len() ==> (#[trigger] caption_positions(
                layouts,
            )[k]) < layouts.len() && layouts[caption_positions(layouts)[k] as int].is_caption,
    decreases layouts.len(),
{
    if layouts.len() > 0 {
        let front = layouts.drop_last();
        lemma_caption_positions(front);
        assert forall|k: int| 0 <= k < caption_positions(layouts).len() implies (
        #[trigger] caption_positions(layouts)[k]) < layouts.len() && layouts[caption_positions(
            layouts,
        )[k] as int].is_caption by {
            if k < caption_positions(front).len() {
                assert(caption_positions(layouts)[k] == caption_positions(front)[k]);
                assert(front[caption_positions(front)[k] as int] == layouts[caption_positions(
                    front,
                )[k] as int]);
            }
        }
    }
}

/// On every page, no caption stands in two places of the lists of the
/// figures.
pub proof fn lemma_captions_attached_once(
    blocks: Seq<TextBlockView>,
    images: Seq<PositionedImageView>,
    segments: Seq<PathSegment>,
    colors: LayoutColors,
)
    requires
        text_layouts(blocks).len() <= usize::MAX,
        images.len() <= usize::MAX,
        merged(segments).len() <= usize::MAX,
    ensures
        captions_apart(laid_out(blocks, images, segments, colors)),
{
    let texts = text_layouts(blocks);
    let boxes = layout_boxes(texts);
    let positions = caption_positions(texts);
    let none = Seq::new(texts.len(), |i: int| false);
    let start = unattached(image_boxes(images), none);
    let first = image_attachment(blocks, images);
    let middle = unattached(shape_boxes(merged(segments)), first.assigned);
    let second = object_attachment(blocks, images, segments);
    let shown = laid_out(blocks, images, segments, colors);
    lemma_caption_positions(texts);
    lemma_attach_all(start, boxes, positions);
    lemma_attach_all(middle, boxes, positions);
    assert forall|t1: int, i1: int, t2: int, i2: int|
        0 <= t1 < shown.images.len() && 0 <= i1 < shown.images[t1].captions.len() && 0 <= t2
            < shown.images.len() && 0 <= i2 < shown.images[t2].captions.len() && (t1 != t2 || i1
            != i2) implies (#[trigger] shown.images[t1].captions[i1]).layout_index != (
    #[trigger] shown.images[t2].captions[i2]).layout_index by {
        lemma_captions_apart(first.pairs, texts, t1, i1, t2, i2);
    }
    assert forall|t1: int, i1: int, t2: int, i2: int|
        0 <= t1 < shown.objects.len() && 0 <= i1 < shown.objects[t1].captions.len() && 0 <= t2
            < shown.objects.len() && 0 <= i2 < shown.objects[t2].captions.len() && (t1 != t2
            || i1 != i2) implies (#[trigger] shown.objects[t1].captions[i1]).layout_index != (
    #[trigger] shown.objects[t2].captions[i2]).layout_index by {
        lemma_captions_apart(second.pairs, texts, t1, i1, t2, i2);
    }
    assert forall|t1: int, i1: int, t2: int, i2: int|
        0 <= t1 < shown.images.len() && 0 <= i1 < shown.images[t1].captions.len() && 0 <= t2
            < shown.objects.len() && 0 <= i2 < shown.objects[t2].captions.len() implies (
    #[trigger] shown.images[t1].captions[i1]).layout_index != (
    #[trigger] shown.objects[t2].captions[i2]).layout_index by {
        lemma_captions_for(first.pairs, t1, texts, i1);
        lemma_captions_for(second.pairs, t2, texts, i2);
        let p = choose|p: int|
            0 <= p < first.pairs.len() && (#[trigger] first.pairs[p]).1 == t1 && captions_for(
                first.pairs,
                t1,
                texts,
            )[i1] == caption_of(texts, first.pairs[p].0);
        let q = choose|q: int|
            0 <= q < second.pairs.len() && (#[trigger] second.pairs[q]).1 == t2 && captions_for(
                second.pairs,
                t2,
                texts,
            )[i2] == caption_of(texts, second.pairs[q].0);
        assert(first.assigned[first.pairs[p].0 as int]);
        assert(!middle.assigned[second.pairs[q].0 as int]);
    }
}

/// Attaching captions leaves the boxes of the figures in order.
pub proof fn lemma_attach_all_ordered(state: Attachment, captions: Seq<BBox>, indices: Seq<usize>)
    requires
        attachment_sound(state, captions),
        forall|k: int| 0 <= k < indices.len() ==> #[trigger] indices[k] < captions.len(),
        forall|t: int| 0 <= t < state.figures.len() ==> (#[trigger] state.figures[t]).ordered(),
    ensures
        forall|t: int|
            0 <= t < attach_all(state, captions, indices).figures.len() ==> (#[trigger] attach_all(
                state,
                captions,
                indices,
            ).figures[t]).ordered(),
    decreases indices.len(),
{
    if indices.len() > 0 {
        let front = indices.drop_last();
        assert forall|k: int| 0 <= k < front.len() implies #[trigger] front[k] < captions.len() by {
            assert(front[k] == indices[k]);
        }
        lemma_attach_all_ordered(state, captions, front);
        lemma_attach_all(state, captions, front);
        let middle = attach_all(state, captions, front);
        crate::figures::lemma_best_candidate(middle.figures, captions[indices.last() as int]);
    }
}

/// Finds the text layouts that read like captions.
fn find_captions(text_layouts: &Vec<FinalTextLayout>) -> (indices: Vec<usize>)
    ensures
        indices@ == caption_positions(layouts_view(text_layouts@)),
        forall|k: int| 0 <= k < indices@.len() ==> #[trigger] indices@[k] < text_layouts@.len(),
{
    let mut indices: Vec<usize> = Vec::new();
    let mut i: usize = 0;
    let ghost views = layouts_view(text_layouts@);
    while i < text_layouts.len()
        invariant
            i <= text_layouts@.len(),
            views == layouts_view(text_layouts@),
            indices@ == caption_positions(views.take(i as int)),
        decreases text_layouts@.len() - i,
    {
        proof {
            assert(views.take(i + 1).drop_last() =~= views.take(i as int));
            assert(views.take(i + 1).last() == text_layouts@[i as int]@);
        }
        if text_layouts[i].is_caption {
            indices.push(i);
        }
        i += 1;
    }
    proof {
        assert(views.take(i as int) =~= views);
        lemma_caption_positions(views);
    }
    indices
}

/// Lays out a page whose runs, images and path segments are known: the
/// blocks of text, the layouts of images and of drawn objects, and the
/// captions attached to the figures, images first.
pub fn build_page_layouts(
    blocks: &Vec<TextBlock>,
    images: &Vec<PositionedImage>,
    segments: &Vec<PathSegment>,
    colors: LayoutColors,
) -> (layouts: PageLayouts)
    ensures
        layouts@ == laid_out(blocks_view(blocks@), images_view(images@), segments@, colors),
        from_the_top(layouts@.text),
        captions_apart(layouts@),
        (forall|i: int| 0 <= i < blocks@.len() ==> (#[trigger] blocks@[i])@.bbox().ordered()) && (
        forall|i: int| 0 <= i < images@.len() ==> (#[trigger] images@[i])@.bbox().ordered())
            ==> boxes_in_order(layouts@),
{
    let text = build_text_layouts(blocks);
    let caption_indices = find_captions(&text);
    let mut assigned: Vec<bool> = Vec::new();
    let mut i: usize = 0;
    while i < text.len()
        invariant
            i <= text@.len(),
            assigned@ == Seq::new(i as nat, |i: int| false),
        decreases text@.len() - i,
    {
        assigned.push(false);
        assert(assigned@ =~= Seq::new((i + 1) as nat, |i: int| false));
        i += 1;
    }
    let mut image_layouts = build_image_layouts(images);
    let mut object_layouts = build_object_layouts(segments);
    let ghost texts = layouts_view(text@);
    let ghost bare_images = image_layouts@;
    let ghost bare_objects = object_layouts@;
    proof {
        assert(frames(bare_images) =~= image_boxes(images_view(images@))) by {
            assert forall|t: int| 0 <= t < bare_images.len() implies frames(bare_images)[t]
                == image_boxes(images_view(images@))[t] by {
                assert(image_layouts_view(bare_images)[t] == bare_images[t]@);
            }
        }
        assert(frames(bare_objects) =~= shape_boxes(merged(segments@))) by {
            let shown = crate::figures::object_layouts(segments@);
            assert(object_layouts_view(bare_objects).len() == bare_objects.len());
            assert(shown.len() == merged(segments@).len());
            assert forall|t: int| 0 <= t < bare_objects.len() implies frames(bare_objects)[t]
                == shape_boxes(merged(segments@))[t] by {
                assert(object_layouts_view(bare_objects)[t] == bare_objects[t]@);
                assert(shown[t] == crate::figures::object_layout_of(merged(segments@)[t]));
            }
        }
    }
    assign_captions_to_images(&mut image_layouts, &text, &caption_indices, &mut assigned);
    assign_captions_to_objects(&mut object_layouts, &text, &caption_indices, &mut assigned);
    let layouts = PageLayouts { text, images: image_layouts, objects: object_layouts, colors };
    proof {
        let first = image_attachment(blocks_view(blocks@), images_view(images@));
        let second = object_attachment(blocks_view(blocks@), images_view(images@), segments@);
        let goal = laid_out(blocks_view(blocks@), images_view(images@), segments@, colors);
        assert forall|t: int| 0 <= t < layouts.images@.len() implies (#[trigger] image_layouts_view(
            layouts.images@,
        )[t]) == goal.images[t] by {
            assert(image_layouts_view(bare_images)[t] == bare_images[t]@);
            assert(frames(layouts.images@)[t] == layouts.images@[t].bbox);
            assert(bare_images[t].attached() + captions_for(first.pairs, t, texts)
                =~= captions_for(first.pairs, t, texts));
        }
        assert(image_layouts_view(layouts.images@) =~= goal.images);
        assert forall|t: int| 0 <= t < layouts.objects@.len() implies (
        #[trigger] object_layouts_view(layouts.objects@)[t]) == goal.objects[t] by {
            assert(object_layouts_view(bare_objects)[t] == bare_objects[t]@);
            assert(frames(layouts.objects@)[t] == layouts.objects@[t].bbox);
            assert(bare_objects[t].attached() + captions_for(second.pairs, t, texts)
                =~= captions_for(second.pairs, t, texts));
        }
        assert(object_layouts_view(layouts.objects@) =~= goal.objects);
        assert(images_view(images@).len() == images.len());
        assert(layouts_view(layouts.text@).len() == layouts.text@.len());
        assert(object_layouts_view(bare_objects).len() == bare_objects.len());
        assert(crate::figures::object_layouts(segments@).len() == merged(segments@).len());
        assert(bare_objects.len() == layouts.objects.len());
        assert(layouts.text@.len() == layouts.text.len());
        lemma_captions_attached_once(
            blocks_view(blocks@),
            images_view(images@),
            segments@,
            colors,
        );
        if (forall|i: int| 0 <= i < blocks@.len() ==> (#[trigger] blocks@[i])@.bbox().ordered())
            && (forall|i: int| 0 <= i < images@.len() ==> (#[trigger] images@[i])@.bbox().ordered()) {
            let boxes = layout_boxes(texts);
            let positions = caption_positions(texts);
            let none = Seq::new(texts.len(), |i: int| false);
            let start = unattached(image_boxes(images_view(images@)), none);
            let middle = unattached(shape_boxes(merged(segments@)), first.assigned);
            lemma_caption_positions(texts);
            lemma_attach_all(start, boxes, positions);
            assert forall|t: int| 0 <= t < start.figures.len() implies (
            #[trigger] start.figures[t]).ordered() by {
                assert(start.figures[t] == images@[t]@.bbox());
            }
            lemma_attach_all_ordered(start, boxes, positions);
            assert forall|t: int| 0 <= t < middle.figures.len() implies (
            #[trigger] middle.figures[t]).ordered() by {
                assert(middle.figures[t] == bare_objects[t].bbox);
            }
            lemma_attach_all(middle, boxes, positions);
            lemma_attach_all_ordered(middle, boxes, positions);
            assert forall|i: int| 0 <= i < goal.text.len() implies (
            #[trigger] goal.text[i]).bbox.ordered() by {
                assert(goal.text[i] == layouts.text@[i]@);
            }
            assert forall|t: int, i: int|
                0 <= t < goal.images.len() && 0 <= i < goal.images[t].captions.len() implies (
            #[trigger] goal.images[t].captions[i]).bbox.ordered() by {
                lemma_captions_for(first.pairs, t, texts, i);
            }
            assert forall|t: int, i: int|
                0 <= t < goal.objects.len() && 0 <= i < goal.objects[t].captions.len() implies (
            #[trigger] goal.objects[t].captions[i]).bbox.ordered() by {
                lemma_captions_for(second.pairs, t, texts, i);
            }
        }
    }
    layouts
}

/// The layouts of a page without content: none.
fn empty_layouts(colors: LayoutColors) -> (layouts: PageLayouts)
    ensures
        layouts@ == no_layouts(colors),
{
    let layouts = PageLayouts {
        text: Vec::new(),
        images: Vec::new(),
        objects: Vec::new(),
        colors,
    };
    assert(layouts@.text =~= Seq::<FinalTextLayoutView>::empty());
    assert(layouts@.images =~= Seq::<ImageLayoutView>::empty());
    assert(layouts@.objects =~= Seq::<ObjectLayoutView>::empty());
    layouts
}

/// No layouts, in the given colours.
pub open spec fn no_layouts(colors: LayoutColors) -> PageLayoutsView {
    PageLayoutsView {
        text: Seq::<FinalTextLayoutView>::empty(),
        images: Seq::<ImageLayoutView>::empty(),
        objects: Seq::<ObjectLayoutView>::empty(),
        colors,
    }
}

/// The external objects of a page, if it has resources.
pub open spec fn page_objects(page: PageSource) -> Option<Seq<NamedXObject>> {
    match page.xobjects {
        Some(table) => Some(table@),
        None => None,
    }
}

/// The runs of text of a page, in the order of its content. A page without
/// content has none.
pub fn extract_text_with_coords(page: &PageSource) -> (blocks: Vec<TextBlock>)
    ensures
        blocks_view(blocks@) == match page.operations {
            Some(ops) => text_runs(page.fonts@, ops@),
            None => Seq::<TextBlockView>::empty(),
        },
        forall|i: int| 0 <= i < blocks@.len() ==> (#[trigger] blocks@[i])@.bbox().ordered(),
{
    match &page.operations {
        Some(ops) => collect_text_blocks(ops, &page.fonts),
        None => {
            let blocks: Vec<TextBlock> = Vec::new();
            assert(blocks_view(blocks@) =~= Seq::<TextBlockView>::empty());
            blocks
        },
    }
}

/// The images of a page, in the order of its content. A page without
/// content has none.
pub fn extract_images(page: &PageSource) -> (r: Result<Vec<PositionedImage>, ExtractError>)
    ensures
        match page.operations {
            Some(ops) => match r {
                Ok(images) => positioned_images(page_objects(*page), ops@) == Ok::<
                    Seq<PositionedImageView>,
                    ExtractErrorView,
                >(images_view(images@)),
                Err(e) => positioned_images(page_objects(*page), ops@) == Err::<
                    Seq<PositionedImageView>,
                    ExtractErrorView,
                >(e@),
            },
            None => r matches Ok(images) && images@.len() == 0,
        },
        r matches Ok(images) ==> forall|i: int|
            0 <= i < images@.len() ==> (#[trigger] images@[i])@.bbox().ordered(),
{
    match &page.operations {
        Some(ops) => collect_positioned_images(ops, page.xobjects.as_ref()),
        None => Ok(Vec::new()),
    }
}

/// The path segments of a page, in the order of its content. A page without
/// content has none.
pub fn extract_paths(page: &PageSource) -> (segments: Vec<PathSegment>)
    ensures
        segments@ == match page.operations {
            Some(ops) => path_segments(ops@),
            None => Seq::<PathSegment>::empty(),
        },
{
    match &page.operations {
        Some(ops) => collect_paths(ops),
        None => Vec::new(),
    }
}

/// The layouts of a page, or why its images could not be read.
pub open spec fn page_layouts(page: PageSource, colors: LayoutColors) -> Result<
    PageLayoutsView,
    ExtractErrorView,
> {
    match page.operations {
        None => Ok(no_layouts(colors)),
        Some(ops) => match positioned_images(page_objects(page), ops@) {
            Err(e) => Err(e),
            Ok(images) => Ok(
                laid_out(text_runs(page.fonts@, ops@), images, path_segments(ops@), colors),
            ),
        },
    }
}

/// The layouts of a page: blocks of text from the top down, then the
/// layouts of its images and of its drawn objects, with the captions attached
/// to the figures. Colours that are not chosen are the defaults. A page
/// without content has no layouts.
pub fn extract_layouts(
    page: &PageSource,
    text_color: Option<Color>,
    image_color: Option<Color>,
    object_color: Option<Color>,
) -> (r: Result<PageLayouts, ExtractError>)
    ensures
        match r {
            Ok(layouts) => page_layouts(
                *page,
                LayoutColors::chosen(text_color, image_color, object_color),
            ) == Ok::<PageLayoutsView, ExtractErrorView>(layouts@),
            Err(e) => page_layouts(
                *page,
                LayoutColors::chosen(text_color, image_color, object_color),
            ) == Err::<PageLayoutsView, ExtractErrorView>(e@),
        },
        r matches Ok(layouts) ==> from_the_top(layouts@.text) && captions_apart(layouts@)
            && boxes_in_order(layouts@),
{
    let colors = LayoutColors::new(text_color, image_color, object_color);
    let ops = match &page.operations {
        Some(ops) => ops,
        None => {
            return Ok(empty_layouts(colors));
        },
    };
    let blocks = collect_text_blocks(ops, &page.fonts);
    let images = collect_positioned_images(ops, page.xobjects.as_ref())?;
    let segments = collect_paths(ops);
    Ok(build_page_layouts(&blocks, &images, &segments, colors))
}

/// The items of a page with so many runs, images and path segments: each by
/// its place, the runs first, then the images, then the segments.
pub open spec fn page_items(texts: nat, images: nat, objects: nat) -> Seq<PageItem> {
    Seq::new(texts, |i: int| PageItem::Text(i as usize)) + Seq::new(
        images,
        |i: int| PageItem::Image(i as usize),
    ) + Seq::new(objects, |i: int| PageItem::Object(i as usize))
}

/// Everything on a page, or why its images could not be read.
pub open spec fn page_content(page: PageSource) -> Result<PageContentView, ExtractErrorView> {
    let colors = LayoutColors::chosen(None, None, None);
    match page.operations {
        None => Ok(
            PageContentView {
                page_index: page.page_index,
                text: Seq::<TextBlockView>::empty(),
                images: Seq::<PositionedImageView>::empty(),
                objects: Seq::<PathSegment>::empty(),
                layouts: no_layouts(colors),
                items: Seq::<PageItem>::empty(),
            },
        ),
        Some(ops) => match positioned_images(page_objects(page), ops@) {
            Err(e) => Err(e),
            Ok(images) => {
                let text = text_runs(page.fonts@, ops@);
                let objects = path_segments(ops@);
                Ok(
                    PageContentView {
                        page_index: page.page_index,
                        text,
                        images,
                        objects,
                        layouts: laid_out(text, images, objects, colors),
                        items: page_items(text.len(), images.len(), objects.len()),
                    },
                )
            },
        },
    }
}

/// Lists the items of a page.
fn list_items(texts: usize, images: usize, objects: usize) -> (items: Vec<PageItem>)
    ensures
        items@ == page_items(texts as nat, images as nat, objects as nat),
{
    let mut items: Vec<PageItem> = Vec::new();
    let mut i: usize = 0;
    while i < texts
        invariant
            i <= texts,
            items@ == Seq::new(i as nat, |i: int| PageItem::Text(i as usize)),
        decreases texts - i,
    {
        items.push(PageItem::Text(i));
        assert(items@ =~= Seq::new((i + 1) as nat, |i: int| PageItem::Text(i as usize)));
        i += 1;
    }
    let mut j: usize = 0;
    while j < images
        invariant
            j <= images,
            items@ == Seq::new(texts as nat, |i: int| PageItem::Text(i as usize)) + Seq::new(
                j as nat,
                |i: int| PageItem::Image(i as usize),
            ),
        decreases images - j,
    {
        items.push(PageItem::Image(j));
        assert(items@ =~= Seq::new(texts as nat, |i: int| PageItem::Text(i as usize)) + Seq::new(
            (j + 1) as nat,
            |i: int| PageItem::Image(i as usize),
        ));
        j += 1;
    }
    let mut k: usize = 0;
    while k < objects
        invariant
            k <= objects,
            items@ == Seq::new(texts as nat, |i: int| PageItem::Text(i as usize)) + Seq::new(
                images as nat,
                |i: int| PageItem::Image(i as usize),
            ) + Seq::new(k as nat, |i: int| PageItem::Object(i as usize)),
        decreases objects - k,
    {
        items.push(PageItem::Object(k));
        assert(items@ =~= Seq::new(texts as nat, |i: int| PageItem::Text(i as usize)) + Seq::new(
            images as nat,
            |i: int| PageItem::Image(i as usize),
        ) + Seq::new((k + 1) as nat, |i: int| PageItem::Object(i as usize)));
        k += 1;
    }
    items
}

/// Everything on a page: its runs of text, its images, its path segments,
/// its layouts in the default colours, and the list of its items. A page
/// without content gives empty lists under its index.
pub fn extract_page_content(page: &PageSource) -> (r: Result<PageContent, ExtractError>)
    ensures
        match r {
            Ok(content) => page_content(*page) == Ok::<PageContentView, ExtractErrorView>(
                content@,
            ),
            Err(e) => page_content(*page) == Err::<PageContentView, ExtractErrorView>(e@),
        },
        r matches Ok(content) ==> content.page_index == page.page_index && from_the_top(
            content@.layouts.text,
        ) && captions_apart(content@.layouts) && boxes_in_order(content@.layouts),
{
    let colors = LayoutColors::new(None, None, None);
    let ops = match &page.operations {
        Some(ops) => ops,
        None => {
            let content = PageContent {
                page_index: page.page_index,
                text: Vec::new(),
                images: Vec::new(),
                objects: Vec::new(),
                layouts: empty_layouts(colors),
                items: Vec::new(),
            };
            proof {
                assert(content@.text =~= Seq::<TextBlockView>::empty());
                assert(content@.images =~= Seq::<PositionedImageView>::empty());
            }
            return Ok(content);
        },
    };
    let text = collect_text_blocks(ops, &page.fonts);
    let images = collect_positioned_images(ops, page.xobjects.as_ref())?;
    let objects = collect_paths(ops);
    let layouts = build_page_layouts(&text, &images, &objects, colors);
    let items = list_items(text.len(), images.len(), objects.len());
    Ok(PageContent { page_index: page.page_index, text, images, objects, layouts, items })
}

} // verus!
