//! Figures: the layouts of images and of drawn objects, and the captions
//! that belong to them.

use crate::fixed::Fixed;
use crate::geometry::{
    bbox_close, bbox_gaps, bbox_union, gaps_between, hull, lemma_hull, points_bbox, union_of, BBox,
};
use crate::graphics::{images_view, PositionedImage, PositionedImageView};
use crate::layout::{first_close, layouts_view, lemma_first_close, FinalTextLayout, FinalTextLayoutView};
use crate::paths::{PathKind, PathSegment};
use vstd::prelude::*;

verus! {

/// How far to the side a caption may stand from its figure.
pub const CAPTION_HORIZONTAL_MARGIN: i64 = 40_000_000;

/// How far above or below a caption may stand from its figure.
pub const CAPTION_VERTICAL_MARGIN: i64 = 80_000_000;

/// Distances closer than this count as equal.
pub const CAPTION_EPSILON: i64 = 1_000;

/// How far apart drawn segments may be to belong to one object.
pub const OBJECT_MERGE_MARGIN: i64 = 4_000_000;

/// A caption of a figure: its text, its box, and the place of the text layout
/// it was taken from.
#[derive(Clone, Debug)]
pub struct CaptionInfo {
    pub text: String,
    pub bbox: BBox,
    pub layout_index: usize,
}

/// A caption with its text as a sequence of characters.
pub struct CaptionInfoView {
    pub text: Seq<char>,
    pub bbox: BBox,
    pub layout_index: usize,
}

impl View for CaptionInfo {
    type V = CaptionInfoView;

    open spec fn view(&self) -> CaptionInfoView {
        CaptionInfoView { text: self.text@, bbox: self.bbox, layout_index: self.layout_index }
    }
}

/// The captions of a list, each as its view.
pub open spec fn captions_view(captions: Seq<CaptionInfo>) -> Seq<CaptionInfoView> {
    captions.map_values(|c: CaptionInfo| c@)
}

/// The layout of an image: its name, the box of the image and its captions,
/// and the captions.
#[derive(Debug)]
pub struct ImageLayout {
    pub name: String,
    pub bbox: BBox,
    pub captions: Vec<CaptionInfo>,
}

/// The layout of an image with its texts as sequences of characters.
pub struct ImageLayoutView {
    pub name: Seq<char>,
    pub bbox: BBox,
    pub captions: Seq<CaptionInfoView>,
}

impl View for ImageLayout {
    type V = ImageLayoutView;

    open spec fn view(&self) -> ImageLayoutView {
        ImageLayoutView { name: self.name@, bbox: self.bbox, captions: captions_view(self.captions@) }
    }
}

/// The layout of a drawn object: the box of its segments and captions, the
/// kinds of its segments, each once, and the captions.
#[derive(Debug)]
pub struct ObjectLayout {
    pub bbox: BBox,
    pub kinds: Vec<PathKind>,
    pub captions: Vec<CaptionInfo>,
}

/// The layout of a drawn object with its lists as sequences.
pub struct ObjectLayoutView {
    pub bbox: BBox,
    pub kinds: Seq<PathKind>,
    pub captions: Seq<CaptionInfoView>,
}

impl View for ObjectLayout {
    type V = ObjectLayoutView;

    open spec fn view(&self) -> ObjectLayoutView {
        ObjectLayoutView {
            bbox: self.bbox,
            kinds: self.kinds@,
            captions: captions_view(self.captions@),
        }
    }
}

/// The image layouts of a list, each as its view.
pub open spec fn image_layouts_view(layouts: Seq<ImageLayout>) -> Seq<ImageLayoutView> {
    layouts.map_values(|l: ImageLayout| l@)
}

/// The object layouts of a list, each as its view.
pub open spec fn object_layouts_view(layouts: Seq<ObjectLayout>) -> Seq<ObjectLayoutView> {
    layouts.map_values(|l: ObjectLayout| l@)
}

/// What a figure is apart from its box and its captions.
pub struct FigureIdentity {
    pub name: Seq<char>,
    pub kinds: Seq<PathKind>,
}

/// A layout that captions can be attached to.
pub trait Figure {
    /// The box of the figure and of the captions attached so far.
    spec fn frame(&self) -> BBox;

    /// The captions attached so far.
    spec fn attached(&self) -> Seq<CaptionInfoView>;

    /// What attaching a caption leaves as it is.
    spec fn identity(&self) -> FigureIdentity;

    /// The box of the figure and of the captions attached so far.
    fn bbox(&self) -> (b: BBox)
        ensures
            b == self.frame(),
    ;

    /// Attaches a caption: the box grows to hold it.
    fn attach(&mut self, caption: CaptionInfo)
        ensures
            final(self).frame() == union_of(old(self).frame(), caption.bbox),
            final(self).attached() == old(self).attached().push(caption@),
            final(self).identity() == old(self).identity(),
    ;
}

impl Figure for ImageLayout {
    open spec fn frame(&self) -> BBox {
        self.bbox
    }

    open spec fn attached(&self) -> Seq<CaptionInfoView> {
        captions_view(self.captions@)
    }

    open spec fn identity(&self) -> FigureIdentity {
        FigureIdentity { name: self.name@, kinds: Seq::<PathKind>::empty() }
    }

    fn bbox(&self) -> (b: BBox) {
        self.bbox
    }

    fn attach(&mut self, caption: CaptionInfo) {
        self.bbox = bbox_union(self.bbox, caption.bbox);
        proof {
            assert(captions_view(self.captions@.push(caption)) =~= captions_view(
                self.captions@,
            ).push(caption@));
        }
        self.captions.push(caption);
    }
}

impl Figure for ObjectLayout {
    open spec fn frame(&self) -> BBox {
        self.bbox
    }

    open spec fn attached(&self) -> Seq<CaptionInfoView> {
        captions_view(self.captions@)
    }

    open spec fn identity(&self) -> FigureIdentity {
        FigureIdentity { name: Seq::<char>::empty(), kinds: self.kinds@ }
    }

    fn bbox(&self) -> (b: BBox) {
        self.bbox
    }

    fn attach(&mut self, caption: CaptionInfo) {
        self.bbox = bbox_union(self.bbox, caption.bbox);
        proof {
            assert(captions_view(self.captions@.push(caption)) =~= captions_view(
                self.captions@,
            ).push(caption@));
        }
        self.captions.push(caption);
    }
}

/// The layout of an image before any caption is attached.
pub open spec fn image_layout_of(image: PositionedImageView) -> ImageLayoutView {
    ImageLayoutView {
        name: image.name,
        bbox: image.bbox(),
        captions: Seq::<CaptionInfoView>::empty(),
    }
}

/// Makes the layouts of the images of a page: one for each image, of its
/// name and its box.
pub fn build_image_layouts(images: &Vec<PositionedImage>) -> (layouts: Vec<ImageLayout>)
    ensures
        image_layouts_view(layouts@) == images_view(images@).map_values(
            |i: PositionedImageView| image_layout_of(i),
        ),
        layouts@.len() == images@.len(),
{
    let ghost goal = images_view(images@).map_values(|i: PositionedImageView| image_layout_of(i));
    let mut layouts: Vec<ImageLayout> = Vec::new();
    let mut i: usize = 0;
    while i < images.len()
        invariant
            i <= images@.len(),
            goal == images_view(images@).map_values(|i: PositionedImageView| image_layout_of(i)),
            image_layouts_view(layouts@) == goal.take(i as int),
            layouts@.len() == i,
        decreases images@.len() - i,
    {
        let image = &images[i];
        let layout = ImageLayout {
            name: image.name.clone(),
            bbox: BBox { x0: image.x0, y0: image.y0, x1: image.x1, y1: image.y1 },
            captions: Vec::new(),
        };
        proof {
            assert(layout@.captions =~= Seq::<CaptionInfoView>::empty());
            assert(goal[i as int] == layout@);
            assert(image_layouts_view(layouts@.push(layout)) =~= goal.take(i + 1));
        }
        layouts.push(layout);
        i += 1;
    }
    assert(goal.take(i as int) =~= goal);
    layouts
}

/// A drawn object while its segments are gathered.
pub struct ObjectShape {
    pub bbox: BBox,
    pub kinds: Seq<PathKind>,
}

/// The boxes of the shapes.
pub open spec fn shape_boxes(shapes: Seq<ObjectShape>) -> Seq<BBox> {
    shapes.map_values(|s: ObjectShape| s.bbox)
}

/// The kinds with one more, unless it is among them.
pub open spec fn with_kind(kinds: Seq<PathKind>, kind: PathKind) -> Seq<PathKind> {
    if kinds.contains(kind) {
        kinds
    } else {
        kinds.push(kind)
    }
}

/// The shapes after a segment was taken in: it joins the first shape whose
/// box is within the merge margin of its own, or starts a shape.
pub open spec fn merged_with(shapes: Seq<ObjectShape>, segment: PathSegment) -> Seq<ObjectShape> {
    let b = hull(segment.points_of());
    let margin = Fixed { raw: OBJECT_MERGE_MARGIN };
    match first_close(shape_boxes(shapes), b, margin, margin) {
        Some(i) => shapes.update(
            i,
            ObjectShape {
                bbox: union_of(shapes[i].bbox, b),
                kinds: with_kind(shapes[i].kinds, segment.kind_of()),
            },
        ),
        None => shapes.push(ObjectShape { bbox: b, kinds: seq![segment.kind_of()] }),
    }
}

/// The shapes that come of the segments, one after the other.
pub open spec fn merged(segments: Seq<PathSegment>) -> Seq<ObjectShape>
    decreases segments.len(),
{
    if segments.len() == 0 {
        Seq::<ObjectShape>::empty()
    } else {
        merged_with(merged(segments.drop_last()), segments.last())
    }
}

/// The layout of a shape before any caption is attached.
pub open spec fn object_layout_of(shape: ObjectShape) -> ObjectLayoutView {
    ObjectLayoutView {
        bbox: shape.bbox,
        kinds: shape.kinds,
        captions: Seq::<CaptionInfoView>::empty(),
    }
}

/// The object layouts of the path segments of a page.
pub open spec fn object_layouts(segments: Seq<PathSegment>) -> Seq<ObjectLayoutView> {
    merged(segments).map_values(|s: ObjectShape| object_layout_of(s))
}

/// The shapes of a list of layouts.
pub open spec fn shapes_of(layouts: Seq<ObjectLayout>) -> Seq<ObjectShape> {
    layouts.map_values(|l: ObjectLayout| ObjectShape { bbox: l.bbox, kinds: l.kinds@ })
}

/// Tells whether a kind is among the kinds.
fn has_kind(kinds: &Vec<PathKind>, kind: PathKind) -> (r: bool)
    ensures
        r == kinds@.contains(kind),
{
    let mut i: usize = 0;
    while i < kinds.len()
        invariant
            i <= kinds@.len(),
            forall|j: int| 0 <= j < i ==> kinds@[j] != kind,
        decreases kinds@.len() - i,
    {
        if kinds[i] == kind {
            return true;
        }
        i += 1;
    }
    false
}

/// Takes one segment into the object layouts.
fn merge_segment(layouts: &mut Vec<ObjectLayout>, segment: &PathSegment)
    requires
        forall|i: int| 0 <= i < old(layouts)@.len() ==> (#[trigger] old(layouts)@[i]).captions@.len() == 0,
        forall|i: int| 0 <= i < old(layouts)@.len() ==> (#[trigger] old(layouts)@[i]).bbox.ordered(),
    ensures
        shapes_of(final(layouts)@) == merged_with(shapes_of(old(layouts)@), *segment),
        forall|i: int|
            0 <= i < final(layouts)@.len() ==> (#[trigger] final(layouts)@[i]).captions@.len() == 0,
        forall|i: int| 0 <= i < final(layouts)@.len() ==> (#[trigger] final(layouts)@[i]).bbox.ordered(),
{
    let points = segment.points();
    let bbox = match points_bbox(&points) {
        Some(b) => b,
        None => {
            return ;
        },
    };
    proof {
        lemma_hull(points@);
    }
    let kind = segment.kind();
    let margin = Fixed::from_raw(OBJECT_MERGE_MARGIN);
    let ghost before = shapes_of(layouts@);
    let mut i: usize = 0;
    while i < layouts.len()
        invariant
            i <= layouts@.len(),
            layouts@ == old(layouts)@,
            before == shapes_of(layouts@),
            bbox == hull(segment.points_of()),
            bbox.ordered(),
            kind == segment.kind_of(),
            margin == (Fixed { raw: OBJECT_MERGE_MARGIN }),
            forall|j: int|
                0 <= j < layouts@.len() ==> (#[trigger] layouts@[j]).captions@.len() == 0,
            forall|j: int| 0 <= j < layouts@.len() ==> (#[trigger] layouts@[j]).bbox.ordered(),
            forall|j: int|
                0 <= j < i ==> !crate::geometry::close_to(
                    #[trigger] shape_boxes(before)[j],
                    bbox,
                    margin,
                    margin,
                ),
        decreases layouts@.len() - i,
    {
        assert(shape_boxes(before)[i as int] == layouts@[i as int].bbox);
        if bbox_close(layouts[i].bbox, bbox, margin, margin) {
            let ghost old_layout = layouts@[i as int];
            let layout = &mut layouts[i];
            layout.bbox = bbox_union(layout.bbox, bbox);
            if !has_kind(&layout.kinds, kind) {
                layout.kinds.push(kind);
            }
            proof {
                lemma_first_close(shape_boxes(before), bbox, margin, margin);
                let new_shape = ObjectShape {
                    bbox: union_of(old_layout.bbox, bbox),
                    kinds: with_kind(old_layout.kinds@, kind),
                };
                assert(shapes_of(layouts@) =~= before.update(i as int, new_shape));
            }
            return ;
        }
        i += 1;
    }
    let mut kinds: Vec<PathKind> = Vec::new();
    kinds.push(kind);
    let fresh = ObjectLayout { bbox, kinds, captions: Vec::new() };
    proof {
        lemma_first_close(shape_boxes(before), bbox, margin, margin);
        assert(fresh.kinds@ =~= seq![kind]);
        assert(shapes_of(layouts@.push(fresh)) =~= before.push(
            ObjectShape { bbox, kinds: seq![kind] },
        ));
    }
    layouts.push(fresh);
}

/// Makes the layouts of the drawn objects of a page: segments that lie
/// within the merge margin of an object's box belong to it.
pub fn build_object_layouts(segments: &Vec<PathSegment>) -> (layouts: Vec<ObjectLayout>)
    ensures
        object_layouts_view(layouts@) == object_layouts(segments@),
        forall|i: int| 0 <= i < layouts@.len() ==> (#[trigger] layouts@[i]).bbox.ordered(),
{
    let mut layouts: Vec<ObjectLayout> = Vec::new();
    let mut i: usize = 0;
    assert(shapes_of(layouts@) =~= merged(segments@.take(0)));
    while i < segments.len()
        invariant
            i <= segments@.len(),
            shapes_of(layouts@) == merged(segments@.take(i as int)),
            forall|j: int|
                0 <= j < layouts@.len() ==> (#[trigger] layouts@[j]).captions@.len() == 0,
            forall|j: int| 0 <= j < layouts@.len() ==> (#[trigger] layouts@[j]).bbox.ordered(),
        decreases segments@.len() - i,
    {
        proof {
            assert(segments@.take(i + 1).drop_last() =~= segments@.take(i as int));
            assert(segments@.take(i + 1).last() == segments@[i as int]);
        }
        merge_segment(&mut layouts, &segments[i]);
        i += 1;
    }
    proof {
        assert(segments@.take(i as int) =~= segments@);
        assert forall|j: int| 0 <= j < layouts@.len() implies (#[trigger] object_layouts_view(
            layouts@,
        )[j]) == object_layouts(segments@)[j] by {
            assert(layouts@[j].captions@.len() == 0);
            assert(layouts@[j]@.captions =~= Seq::<CaptionInfoView>::empty());
            assert(shapes_of(layouts@)[j] == merged(segments@)[j]);
        }
        assert(object_layouts_view(layouts@) =~= object_layouts(segments@));
    }
    layouts
}

/// The boxes of a list of figures.
pub open spec fn frames<T: Figure>(figures: Seq<T>) -> Seq<BBox> {
    figures.map_values(|f: T| f.frame())
}

/// A figure that a caption may belong to: its position among the figures,
/// and how far the caption stands from it along each axis.
#[derive(Clone, Copy, Debug, PartialEq, Eq, Structural)]
pub struct Candidate {
    pub index: usize,
    pub y_gap: Fixed,
    pub x_gap: Fixed,
}

/// A caption may belong to a figure that it stands close enough to along
/// both axes.
pub open spec fn within_reach(figure: BBox, caption: BBox) -> bool {
    gaps_between(figure, caption).0.raw <= CAPTION_HORIZONTAL_MARGIN && gaps_between(
        figure,
        caption,
    ).1.raw <= CAPTION_VERTICAL_MARGIN
}

/// The figure chosen so far stays chosen against another that is in reach
/// when the other is further off vertically, or as far off vertically, give
/// or take the epsilon, and no further off horizontally.
pub open spec fn holds_against(best: Candidate, y_gap: Fixed, x_gap: Fixed) -> bool {
    let epsilon = Fixed { raw: CAPTION_EPSILON };
    y_gap.raw > best.y_gap.plus(epsilon).raw || (y_gap.minus(best.y_gap).abs().raw <= epsilon.raw
        && x_gap.raw <= best.x_gap.plus(epsilon).raw)
}

/// The figure that a caption belongs to, if any is in reach. The figures are
/// taken in their order; one in reach is chosen unless the one chosen so far
/// holds against it.
pub open spec fn best_candidate(figures: Seq<BBox>, caption: BBox) -> Option<Candidate>
    decreases figures.len(),
{
    if figures.len() == 0 {
        None
    } else {
        let before = best_candidate(figures.drop_last(), caption);
        let gaps = gaps_between(figures.last(), caption);
        let this = Candidate { index: (figures.len() - 1) as usize, y_gap: gaps.1, x_gap: gaps.0 };
        if within_reach(figures.last(), caption) {
            match before {
                Some(best) => if holds_against(best, gaps.1, gaps.0) {
                    before
                } else {
                    Some(this)
                },
                None => Some(this),
            }
        } else {
            before
        }
    }
}

/// The figure chosen for a caption is one of the figures and in reach of it.
pub proof fn lemma_best_candidate(figures: Seq<BBox>, caption: BBox)
    requires
        figures.len() <= usize::MAX,
    ensures
        best_candidate(figures, caption) matches Some(best) ==> best.index < figures.len()
            && within_reach(figures[best.index as int], caption),
        best_candidate(figures, caption) is None <==> forall|i: int|
            0 <= i < figures.len() ==> !within_reach(#[trigger] figures[i], caption),
    decreases figures.len(),
{
    if figures.len() > 0 {
        let front = figures.drop_last();
        lemma_best_candidate(front, caption);
        assert forall|i: int| 0 <= i < front.len() implies front[i] == figures[i] by {}
        if best_candidate(figures, caption) is None {
            assert forall|i: int| 0 <= i < figures.len() implies !within_reach(
                #[trigger] figures[i],
                caption,
            ) by {
                if i < front.len() {
                    assert(front[i] == figures[i]);
                }
            }
        } else if best_candidate(front, caption) is None {
            assert(within_reach(figures[figures.len() - 1], caption));
        } else {
            let i = choose|i: int| 0 <= i < front.len() && within_reach(#[trigger] front[i], caption);
            assert(within_reach(figures[i], caption));
        }
    }
}

/// Finds the figure that a caption belongs to.
pub fn best_caption_index<T: Figure>(layouts: &Vec<T>, caption_bbox: BBox) -> (r: Option<usize>)
    ensures
        match best_candidate(frames(layouts@), caption_bbox) {
            Some(best) => r == Some(best.index),
            None => r is None,
        },
        r matches Some(i) ==> i < layouts@.len(),
{
    let mut best: Option<Candidate> = None;
    let epsilon = Fixed::from_raw(CAPTION_EPSILON);
    let mut idx: usize = 0;
    assert(frames(layouts@).take(0) =~= Seq::<BBox>::empty());
    while idx < layouts.len()
        invariant
            idx <= layouts@.len(),
            epsilon == (Fixed { raw: CAPTION_EPSILON }),
            best == best_candidate(frames(layouts@).take(idx as int), caption_bbox),
        decreases layouts@.len() - idx,
    {
        proof {
            let part = frames(layouts@).take(idx + 1);
            assert(part.drop_last() =~= frames(layouts@).take(idx as int));
            assert(part.last() == layouts@[idx as int].frame());
        }
        let bbox = layouts[idx].bbox();
        let (x_gap, y_gap) = bbox_gaps(bbox, caption_bbox);
        if x_gap.raw <= CAPTION_HORIZONTAL_MARGIN && y_gap.raw <= CAPTION_VERTICAL_MARGIN {
            let keep = match best {
                Some(chosen) => y_gap.raw > chosen.y_gap.plus(epsilon).raw || (y_gap.minus(
                    chosen.y_gap,
                ).abs().raw <= epsilon.raw && x_gap.raw <= chosen.x_gap.plus(epsilon).raw),
                None => false,
            };
            if !keep {
                best = Some(Candidate { index: idx, y_gap, x_gap });
            }
        }
        idx += 1;
    }
    proof {
        assert(frames(layouts@).take(idx as int) =~= frames(layouts@));
        lemma_best_candidate(frames(layouts@), caption_bbox);
    }
    match best {
        Some(chosen) => Some(chosen.index),
        None => None,
    }
}

/// How far the captions of a page have been attached: the boxes of the
/// figures, which captions have found a figure, and which caption went to
/// which figure, in the order in which they were attached.
pub struct Attachment {
    pub figures: Seq<BBox>,
    pub assigned: Seq<bool>,
    pub pairs: Seq<(usize, usize)>,
}

/// Attaches one caption, by its position among the text layouts: a caption
/// that has a figure is passed over; another goes to the figure chosen for
/// it, if there is one, whose box grows to hold it.
pub open spec fn attach_one(state: Attachment, captions: Seq<BBox>, caption: usize) -> Attachment {
    if state.assigned[caption as int] {
        state
    } else {
        match best_candidate(state.figures, captions[caption as int]) {
            Some(best) => Attachment {
                figures: state.figures.update(
                    best.index as int,
                    union_of(state.figures[best.index as int], captions[caption as int]),
                ),
                assigned: state.assigned.update(caption as int, true),
                pairs: state.pairs.push((caption, best.index)),
            },
            None => state,
        }
    }
}

/// Attaches the captions one after the other.
pub open spec fn attach_all(state: Attachment, captions: Seq<BBox>, indices: Seq<usize>) -> Attachment
    decreases indices.len(),
{
    if indices.len() == 0 {
        state
    } else {
        attach_one(attach_all(state, captions, indices.drop_last()), captions, indices.last())
    }
}

/// The state before any caption of a pass is attached.
pub open spec fn unattached(figures: Seq<BBox>, assigned: Seq<bool>) -> Attachment {
    Attachment { figures, assigned, pairs: Seq::<(usize, usize)>::empty() }
}

/// The caption that a text layout makes.
pub open spec fn caption_of(layouts: Seq<FinalTextLayoutView>, index: usize) -> CaptionInfoView {
    CaptionInfoView {
        text: layouts[index as int].combined,
        bbox: layouts[index as int].bbox,
        layout_index: index,
    }
}

/// The captions that went to the figure at `figure`, in the order in which
/// they were attached.
pub open spec fn captions_for(pairs: Seq<(usize, usize)>, figure: int, layouts: Seq<FinalTextLayoutView>) -> Seq<
    CaptionInfoView,
>
    decreases pairs.len(),
{
    if pairs.len() == 0 {
        Seq::<CaptionInfoView>::empty()
    } else {
        let before = captions_for(pairs.drop_last(), figure, layouts);
        if pairs.last().1 == figure {
            before.push(caption_of(layouts, pairs.last().0))
        } else {
            before
        }
    }
}

/// The boxes of the text layouts.
pub open spec fn layout_boxes(layouts: Seq<FinalTextLayoutView>) -> Seq<BBox> {
    layouts.map_values(|l: FinalTextLayoutView| l.bbox)
}

/// The figures are the figures of `before` with the captions of `state`
/// attached.
pub open spec fn attached_to<T: Figure>(
    figures: Seq<T>,
    before: Seq<T>,
    state: Attachment,
    layouts: Seq<FinalTextLayoutView>,
) -> bool {
    &&& figures.len() == before.len()
    &&& state.figures == frames(figures)
    &&& forall|t: int|
        0 <= t < figures.len() ==> {
            &&& (#[trigger] figures[t]).identity() == before[t].identity()
            &&& figures[t].attached() == before[t].attached() + captions_for(state.pairs, t, layouts)
        }
}

/// Attaches captions to figures. The captions are the text layouts at the
/// given positions, taken in that order; `assigned` tells for every text
/// layout whether it has a figure, and is kept up to date.
pub fn assign_captions<T: Figure>(
    layouts: &mut Vec<T>,
    text_layouts: &Vec<FinalTextLayout>,
    caption_indices: &Vec<usize>,
    assigned: &mut Vec<bool>,
)
    requires
        old(assigned)@.len() == text_layouts@.len(),
        forall|k: int|
            0 <= k < caption_indices@.len() ==> #[trigger] caption_indices@[k] < text_layouts@.len(),
    ensures
        final(assigned)@.len() == old(assigned)@.len(),
        final(assigned)@ == attach_all(
            unattached(frames(old(layouts)@), old(assigned)@),
            layout_boxes(layouts_view(text_layouts@)),
            caption_indices@,
        ).assigned,
        attached_to(
            final(layouts)@,
            old(layouts)@,
            attach_all(
                unattached(frames(old(layouts)@), old(assigned)@),
                layout_boxes(layouts_view(text_layouts@)),
                caption_indices@,
            ),
            layouts_view(text_layouts@),
        ),
{
    let ghost start = unattached(frames(layouts@), assigned@);
    let ghost views = layouts_view(text_layouts@);
    let ghost boxes = layout_boxes(views);
    let mut k: usize = 0;
    proof {
        assert forall|t: int| 0 <= t < layouts@.len() implies (#[trigger] layouts@[t]).attached()
            == layouts@[t].attached() + captions_for(start.pairs, t, views) by {
            assert(layouts@[t].attached() + Seq::<CaptionInfoView>::empty()
                =~= layouts@[t].attached());
        }
    }
    while k < caption_indices.len()
        invariant
            k <= caption_indices@.len(),
            start == unattached(frames(old(layouts)@), old(assigned)@),
            views == layouts_view(text_layouts@),
            boxes == layout_boxes(views),
            assigned@.len() == text_layouts@.len(),
            forall|k: int|
                0 <= k < caption_indices@.len() ==> #[trigger] caption_indices@[k]
                    < text_layouts@.len(),
            assigned@ == attach_all(start, boxes, caption_indices@.take(k as int)).assigned,
            attached_to(
                layouts@,
                old(layouts)@,
                attach_all(start, boxes, caption_indices@.take(k as int)),
                views,
            ),
        decreases caption_indices@.len() - k,
    {
        let ghost state = attach_all(start, boxes, caption_indices@.take(k as int));
        proof {
            assert(caption_indices@.take(k + 1).drop_last() =~= caption_indices@.take(k as int));
            assert(caption_indices@.take(k + 1).last() == caption_indices@[k as int]);
        }
        let caption_idx = caption_indices[k];
        if !assigned[caption_idx] {
            let caption = &text_layouts[caption_idx];
            assert(boxes[caption_idx as int] == caption.bbox);
            if let Some(best_idx) = best_caption_index(layouts, caption.bbox) {
                let info = CaptionInfo {
                    text: caption.combined.clone(),
                    bbox: caption.bbox,
                    layout_index: caption_idx,
                };
                let ghost earlier = layouts@;
                layouts[best_idx].attach(info);
                assigned.set(caption_idx, true);
                proof {
                    let next = attach_one(state, boxes, caption_idx);
                    assert(info@ == caption_of(views, caption_idx));
                    assert(frames(layouts@) =~= next.figures);
                    assert(next.pairs.drop_last() =~= state.pairs);
                    assert forall|t: int| 0 <= t < layouts@.len() implies {
                        &&& (#[trigger] layouts@[t]).identity() == old(layouts)@[t].identity()
                        &&& layouts@[t].attached() == old(layouts)@[t].attached() + captions_for(
                            next.pairs,
                            t,
                            views,
                        )
                    } by {
                        assert(earlier[t].identity() == old(layouts)@[t].identity());
                        if t == best_idx {
                            assert(layouts@[t].attached() =~= old(layouts)@[t].attached()
                                + captions_for(next.pairs, t, views));
                        } else {
                            assert(layouts@[t] == earlier[t]);
                        }
                    }
                }
            }
        }
        k += 1;
    }
    assert(caption_indices@.take(k as int) =~= caption_indices@);
}

/// Attaches captions to the layouts of images.
pub fn assign_captions_to_images(
    layouts: &mut Vec<ImageLayout>,
    text_layouts: &Vec<FinalTextLayout>,
    caption_indices: &Vec<usize>,
    assigned: &mut Vec<bool>,
)
    requires
        old(assigned)@.len() == text_layouts@.len(),
        forall|k: int|
            0 <= k < caption_indices@.len() ==> #[trigger] caption_indices@[k] < text_layouts@.len(),
    ensures
        final(assigned)@.len() == old(assigned)@.len(),
        final(assigned)@ == attach_all(
            unattached(frames(old(layouts)@), old(assigned)@),
            layout_boxes(layouts_view(text_layouts@)),
            caption_indices@,
        ).assigned,
        attached_to(
            final(layouts)@,
            old(layouts)@,
            attach_all(
                unattached(frames(old(layouts)@), old(assigned)@),
                layout_boxes(layouts_view(text_layouts@)),
                caption_indices@,
            ),
            layouts_view(text_layouts@),
        ),
{
    assign_captions(layouts, text_layouts, caption_indices, assigned);
}

/// Attaches captions to the layouts of drawn objects.
pub fn assign_captions_to_objects(
    layouts: &mut Vec<ObjectLayout>,
    text_layouts: &Vec<FinalTextLayout>,
    caption_indices: &Vec<usize>,
    assigned: &mut Vec<bool>,
)
    requires
        old(assigned)@.len() == text_layouts@.len(),
        forall|k: int|
            0 <= k < caption_indices@.len() ==> #[trigger] caption_indices@[k] < text_layouts@.len(),
    ensures
        final(assigned)@.len() == old(assigned)@.len(),
        final(assigned)@ == attach_all(
            unattached(frames(old(layouts)@), old(assigned)@),
            layout_boxes(layouts_view(text_layouts@)),
            caption_indices@,
        ).assigned,
        attached_to(
            final(layouts)@,
            old(layouts)@,
            attach_all(
                unattached(frames(old(layouts)@), old(assigned)@),
                layout_boxes(layouts_view(text_layouts@)),
                caption_indices@,
            ),
            layouts_view(text_layouts@),
        ),
{
    assign_captions(layouts, text_layouts, caption_indices, assigned);
}

/// A state of attachment fits the captions and figures of a page: every
/// text layout has its mark, and every caption that was attached is marked,
/// names a text layout and went to one of the figures.
pub open spec fn attachment_sound(state: Attachment, captions: Seq<BBox>) -> bool {
    &&& state.assigned.len() == captions.len()
    &&& state.figures.len() <= usize::MAX
    &&& forall|p: int|
        0 <= p < state.pairs.len() ==> {
            &&& (#[trigger] state.pairs[p]).0 < captions.len()
            &&& state.pairs[p].1 < state.figures.len()
            &&& state.assigned[state.pairs[p].0 as int]
        }
    &&& forall|p: int, q: int|
        0 <= p < q < state.pairs.len() ==> (#[trigger] state.pairs[p]).0 != (
        #[trigger] state.pairs[q]).0
}

/// Attaching captions keeps the state sound, keeps what was attached and
/// marked before, and attaches no caption that was marked before.
pub proof fn lemma_attach_all(state: Attachment, captions: Seq<BBox>, indices: Seq<usize>)
    requires
        attachment_sound(state, captions),
        forall|k: int| 0 <= k < indices.len() ==> #[trigger] indices[k] < captions.len(),
    ensures
        attachment_sound(attach_all(state, captions, indices), captions),
        attach_all(state, captions, indices).figures.len() == state.figures.len(),
        state.pairs.len() <= attach_all(state, captions, indices).pairs.len(),
        forall|p: int|
            0 <= p < state.pairs.len() ==> attach_all(state, captions, indices).pairs[p]
                == #[trigger] state.pairs[p],
        forall|c: int|
            0 <= c < captions.len() && #[trigger] state.assigned[c] ==> attach_all(
                state,
                captions,
                indices,
            ).assigned[c],
        forall|p: int|
            state.pairs.len() <= p < attach_all(state, captions, indices).pairs.len()
                ==> !state.assigned[(#[trigger] attach_all(state, captions, indices).pairs[p]).0 as int],
    decreases indices.len(),
{
    if indices.len() > 0 {
        let front = indices.drop_last();
        assert forall|k: int| 0 <= k < front.len() implies #[trigger] front[k] < captions.len() by {
            assert(front[k] == indices[k]);
        }
        lemma_attach_all(state, captions, front);
        let middle = attach_all(state, captions, front);
        let caption = indices.last();
        let after = attach_one(middle, captions, caption);
        if !middle.assigned[caption as int] {
            lemma_best_candidate(middle.figures, captions[caption as int]);
            match best_candidate(middle.figures, captions[caption as int]) {
                Some(best) => {
                    assert forall|p: int| 0 <= p < after.pairs.len() implies {
                        &&& (#[trigger] after.pairs[p]).0 < captions.len()
                        &&& after.pairs[p].1 < after.figures.len()
                        &&& after.assigned[after.pairs[p].0 as int]
                    } by {
                        if p < middle.pairs.len() {
                            assert(after.pairs[p] == middle.pairs[p]);
                        }
                    }
                    assert forall|p: int, q: int| 0 <= p < q < after.pairs.len() implies (
                    #[trigger] after.pairs[p]).0 != (#[trigger] after.pairs[q]).0 by {
                        assert(after.pairs[p] == middle.pairs[p]);
                        if q < middle.pairs.len() {
                            assert(after.pairs[q] == middle.pairs[q]);
                        }
                    }
                    assert forall|p: int| state.pairs.len() <= p < after.pairs.len() implies !state.assigned[(
                    #[trigger] after.pairs[p]).0 as int] by {
                        if p < middle.pairs.len() {
                            assert(after.pairs[p] == middle.pairs[p]);
                        }
                    }
                },
                None => {},
            }
        }
    }
}

/// Every caption in the list of a figure was attached to that figure.
pub proof fn lemma_captions_for(
    pairs: Seq<(usize, usize)>,
    figure: int,
    layouts: Seq<FinalTextLayoutView>,
    i: int,
)
    requires
        0 <= i < captions_for(pairs, figure, layouts).len(),
    ensures
        exists|p: int|
            0 <= p < pairs.len() && (#[trigger] pairs[p]).1 == figure && captions_for(
                pairs,
                figure,
                layouts,
            )[i] == caption_of(layouts, pairs[p].0),
    decreases pairs.len(),
{
    let front = pairs.drop_last();
    let before = captions_for(front, figure, layouts);
    if i < before.len() {
        lemma_captions_for(front, figure, layouts, i);
        let p = choose|p: int|
            0 <= p < front.len() && (#[trigger] front[p]).1 == figure && before[i] == caption_of(
                layouts,
                front[p].0,
            );
        assert(pairs[p] == front[p]);
    } else {
        assert(pairs[pairs.len() - 1].1 == figure);
    }
}

/// Where no caption was attached twice, no caption stands in two places of
/// the lists of the figures.
pub proof fn lemma_captions_apart(
    pairs: Seq<(usize, usize)>,
    layouts: Seq<FinalTextLayoutView>,
    t1: int,
    i1: int,
    t2: int,
    i2: int,
)
    requires
        forall|p: int, q: int|
            0 <= p < q < pairs.len() ==> (#[trigger] pairs[p]).0 != (#[trigger] pairs[q]).0,
        0 <= i1 < captions_for(pairs, t1, layouts).len(),
        0 <= i2 < captions_for(pairs, t2, layouts).len(),
        t1 != t2 || i1 != i2,
    ensures
        captions_for(pairs, t1, layouts)[i1].layout_index != captions_for(
            pairs,
            t2,
            layouts,
        )[i2].layout_index,
    decreases pairs.len(),
{
    let front = pairs.drop_last();
    let last = pairs.last();
    let first = captions_for(front, t1, layouts);
    let second = captions_for(front, t2, layouts);
    assert forall|p: int, q: int| 0 <= p < q < front.len() implies (#[trigger] front[p]).0 != (
    #[trigger] front[q]).0 by {
        assert(front[p] == pairs[p] && front[q] == pairs[q]);
    }
    if i1 < first.len() && i2 < second.len() {
        lemma_captions_apart(front, layouts, t1, i1, t2, i2);
    } else if i1 < first.len() {
        lemma_captions_for(front, t1, layouts, i1);
        let p = choose|p: int|
            0 <= p < front.len() && (#[trigger] front[p]).1 == t1 && first[i1] == caption_of(
                layouts,
                front[p].0,
            );
        assert(front[p] == pairs[p]);
        assert(pairs[p].0 != pairs[pairs.len() - 1].0);
    } else if i2 < second.len() {
        lemma_captions_for(front, t2, layouts, i2);
        let p = choose|p: int|
            0 <= p < front.len() && (#[trigger] front[p]).1 == t2 && second[i2] == caption_of(
                layouts,
                front[p].0,
            );
        assert(front[p] == pairs[p]);
        assert(pairs[p].0 != pairs[pairs.len() - 1].0);
    } else {
        assert(last.1 == t1 && last.1 == t2);
    }
}

} // verus!
