//! Text layouts: the runs of a page clustered into blocks of text.
//!
//! Runs are taken from the top of the page down and, at one height, from the
//! left. Each joins the first block that it is close to, or starts a block.
//! A block's lines are read from the top down, and the blocks are put out
//! from the top of the page down.

use crate::caption::{caption_like, looks_like_caption};
use crate::fixed::Fixed;
use crate::geometry::{bbox_close, bbox_union, close_to, holds, union_of, BBox};
use crate::ordering::{is_ranking, lemma_ranking, rank, ranking, SortKey};
use crate::text::{blocks_view, TextBlock, TextBlockView};
use vstd::prelude::*;
use vstd::string::StringExecFns;

verus! {

/// A block of text: the box around its runs, its lines from the top down,
/// the lines joined by line feeds, and whether it reads like a caption.
#[derive(Debug)]
pub struct FinalTextLayout {
    pub bbox: BBox,
    pub lines: Vec<String>,
    pub combined: String,
    pub is_caption: bool,
}

/// A block of text with its texts as sequences of characters.
pub struct FinalTextLayoutView {
    pub bbox: BBox,
    pub lines: Seq<Seq<char>>,
    pub combined: Seq<char>,
    pub is_caption: bool,
}

/// The texts of a list of lines.
pub open spec fn lines_view(lines: Seq<String>) -> Seq<Seq<char>> {
    lines.map_values(|l: String| l@)
}

impl View for FinalTextLayout {
    type V = FinalTextLayoutView;

    open spec fn view(&self) -> FinalTextLayoutView {
        FinalTextLayoutView {
            bbox: self.bbox,
            lines: lines_view(self.lines@),
            combined: self.combined@,
            is_caption: self.is_caption,
        }
    }
}

/// The layouts of a list, each as its view.
pub open spec fn layouts_view(layouts: Seq<FinalTextLayout>) -> Seq<FinalTextLayoutView> {
    layouts.map_values(|l: FinalTextLayout| l@)
}

impl FinalTextLayout {
    /// The horizontal extent of the block.
    pub fn width(&self) -> (w: Fixed)
        ensures
            w == self.bbox.width(),
    {
        self.bbox.width()
    }

    /// The vertical extent of the block.
    pub fn height(&self) -> (h: Fixed)
        ensures
            h == self.bbox.height(),
    {
        self.bbox.height()
    }
}

/// A block while it is gathered: the box around its runs, and its runs by
/// their positions in the list of runs, in the order in which they joined.
#[derive(Debug)]
pub struct GroupedTextLayout {
    pub bbox: BBox,
    pub members: Vec<usize>,
}

/// A block while it is gathered, with its runs as a sequence.
pub struct Group {
    pub bbox: BBox,
    pub members: Seq<usize>,
}

impl View for GroupedTextLayout {
    type V = Group;

    open spec fn view(&self) -> Group {
        Group { bbox: self.bbox, members: self.members@ }
    }
}

/// The groups of a list, each as its view.
pub open spec fn groups_view(groups: Seq<GroupedTextLayout>) -> Seq<Group> {
    groups.map_values(|g: GroupedTextLayout| g@)
}

/// The boxes of the runs.
pub open spec fn run_boxes(blocks: Seq<TextBlockView>) -> Seq<BBox> {
    blocks.map_values(|b: TextBlockView| b.bbox())
}

/// The keys by which boxes are ranked: the upper edge, the higher first, and
/// then the left edge, the further left first.
pub open spec fn box_key(b: BBox) -> SortKey {
    SortKey { major: b.y1, minor: b.x0 }
}

/// The height of a run for the sake of its margins: at least one unit.
pub open spec fn run_height(b: BBox) -> Fixed {
    b.y1.minus(b.y0).abs().max(Fixed { raw: 1_000_000 })
}

/// How far to the side a run may stand from a block that it joins: four
/// fifths of its height and four units.
pub open spec fn horizontal_margin(b: BBox) -> Fixed {
    run_height(b).times(Fixed { raw: 800_000 }).plus(Fixed { raw: 4_000_000 })
}

/// How far above or below a run may stand from a block that it joins: one
/// and a half times its height and four units.
pub open spec fn vertical_margin(b: BBox) -> Fixed {
    run_height(b).times(Fixed { raw: 1_500_000 }).plus(Fixed { raw: 4_000_000 })
}

/// The height of the middle of a box.
pub open spec fn center_y(b: BBox) -> Fixed {
    b.y0.plus(b.y1).scaled(1, 2)
}

/// The position of the first box that is close to `target`.
pub open spec fn first_close(boxes: Seq<BBox>, target: BBox, horizontal: Fixed, vertical: Fixed) -> Option<
    int,
>
    decreases boxes.len(),
{
    if boxes.len() == 0 {
        None
    } else {
        match first_close(boxes.drop_last(), target, horizontal, vertical) {
            Some(i) => Some(i),
            None => if close_to(boxes.last(), target, horizontal, vertical) {
                Some(boxes.len() - 1)
            } else {
                None
            },
        }
    }
}

/// The position that `first_close` gives is the least of a close box.
pub proof fn lemma_first_close(boxes: Seq<BBox>, target: BBox, horizontal: Fixed, vertical: Fixed)
    ensures
        match first_close(boxes, target, horizontal, vertical) {
            Some(i) => 0 <= i < boxes.len() && close_to(boxes[i], target, horizontal, vertical)
                && forall|j: int|
                0 <= j < i ==> !close_to(#[trigger] boxes[j], target, horizontal, vertical),
            None => forall|j: int|
                0 <= j < boxes.len() ==> !close_to(#[trigger] boxes[j], target, horizontal, vertical),
        },
    decreases boxes.len(),
{
    if boxes.len() > 0 {
        let front = boxes.drop_last();
        lemma_first_close(front, target, horizontal, vertical);
        match first_close(front, target, horizontal, vertical) {
            Some(i) => {
                assert(front[i] == boxes[i]);
                assert forall|j: int| 0 <= j < i implies !close_to(
                    #[trigger] boxes[j],
                    target,
                    horizontal,
                    vertical,
                ) by {
                    assert(front[j] == boxes[j]);
                }
            },
            None => {
                assert forall|j: int| 0 <= j < boxes.len() - 1 implies !close_to(
                    #[trigger] boxes[j],
                    target,
                    horizontal,
                    vertical,
                ) by {
                    assert(front[j] == boxes[j]);
                }
            },
        }
    }
}

/// The boxes of the groups.
pub open spec fn group_boxes(groups: Seq<Group>) -> Seq<BBox> {
    groups.map_values(|g: Group| g.bbox)
}

/// The groups after the run at position `run` was placed: it joins the first
/// group whose box it is close to, which grows to hold it, or it starts a
/// group of its own at the end.
pub open spec fn grouped_with(groups: Seq<Group>, boxes: Seq<BBox>, run: usize) -> Seq<Group> {
    let b = boxes[run as int];
    match first_close(group_boxes(groups), b, horizontal_margin(b), vertical_margin(b)) {
        Some(i) => groups.update(
            i,
            Group { bbox: union_of(groups[i].bbox, b), members: groups[i].members.push(run) },
        ),
        None => groups.push(Group { bbox: b, members: seq![run] }),
    }
}

/// The groups that come of placing the runs one after the other in the
/// given order.
pub open spec fn grouped(boxes: Seq<BBox>, order: Seq<usize>) -> Seq<Group>
    decreases order.len(),
{
    if order.len() == 0 {
        Seq::<Group>::empty()
    } else {
        grouped_with(grouped(boxes, order.drop_last()), boxes, order.last())
    }
}

/// The runs of a group in the order of its lines: from the top down by the
/// height of their middle, and at one height in the order in which they
/// joined.
pub open spec fn line_order(boxes: Seq<BBox>, members: Seq<usize>) -> Seq<usize> {
    ranking(line_keys(boxes, members)).map_values(|k: usize| members[k as int])
}

/// The keys by which the runs of a group are ranked.
pub open spec fn line_keys(boxes: Seq<BBox>, members: Seq<usize>) -> Seq<SortKey> {
    members.map_values(
        |m: usize| SortKey { major: center_y(boxes[m as int]), minor: Fixed { raw: 0 } },
    )
}

/// A block as it is planned: its box, and its lines as positions of runs.
pub struct LayoutPlan {
    pub bbox: BBox,
    pub lines: Seq<usize>,
}

/// The blocks of the runs in the order in which they were started.
pub open spec fn planned_groups(boxes: Seq<BBox>) -> Seq<LayoutPlan> {
    grouped(boxes, ranking(boxes.map_values(|b: BBox| box_key(b)))).map_values(
        |g: Group| LayoutPlan { bbox: g.bbox, lines: line_order(boxes, g.members) },
    )
}

/// The blocks of the runs from the top of the page down.
pub open spec fn layout_plans(boxes: Seq<BBox>) -> Seq<LayoutPlan> {
    let plans = planned_groups(boxes);
    ranking(plans.map_values(|p: LayoutPlan| box_key(p.bbox))).map_values(
        |k: usize| plans[k as int],
    )
}

/// The lines joined, with a line feed between each two.
pub open spec fn joined(lines: Seq<Seq<char>>) -> Seq<char>
    decreases lines.len(),
{
    if lines.len() == 0 {
        Seq::<char>::empty()
    } else if lines.len() == 1 {
        lines[0]
    } else {
        joined(lines.drop_last()).push('\n') + lines.last()
    }
}

/// The block of text that a plan makes of the runs.
pub open spec fn planned_layout(blocks: Seq<TextBlockView>, plan: LayoutPlan) -> FinalTextLayoutView {
    let lines = plan.lines.map_values(|i: usize| blocks[i as int].text);
    FinalTextLayoutView {
        bbox: plan.bbox,
        lines,
        combined: joined(lines),
        is_caption: lines.len() > 0 && caption_like(lines[0]),
    }
}

/// The blocks of text of a page.
pub open spec fn text_layouts(blocks: Seq<TextBlockView>) -> Seq<FinalTextLayoutView> {
    layout_plans(run_boxes(blocks)).map_values(|p: LayoutPlan| planned_layout(blocks, p))
}

/// Every member of every group is a position of a run, every group has a
/// member, the box of a group holds the boxes of its members, and it is in
/// order if those of the runs are.
pub open spec fn groups_sound(groups: Seq<Group>, boxes: Seq<BBox>) -> bool {
    forall|g: int|
        0 <= g < groups.len() ==> {
            &&& (#[trigger] groups[g]).members.len() > 0
            &&& forall|m: int|
                0 <= m < groups[g].members.len() ==> 0 <= #[trigger] groups[g].members[m]
                    < boxes.len() && holds(groups[g].bbox, boxes[groups[g].members[m] as int])
            &&& (forall|r: int| 0 <= r < boxes.len() ==> (#[trigger] boxes[r]).ordered())
                ==> groups[g].bbox.ordered()
        }
}

proof fn lemma_grouped_with_sound(groups: Seq<Group>, boxes: Seq<BBox>, run: usize)
    requires
        groups_sound(groups, boxes),
        run < boxes.len(),
    ensures
        groups_sound(grouped_with(groups, boxes, run), boxes),
{
    let b = boxes[run as int];
    lemma_first_close(group_boxes(groups), b, horizontal_margin(b), vertical_margin(b));
    let after = grouped_with(groups, boxes, run);
    assert forall|g: int| 0 <= g < after.len() implies {
        &&& (#[trigger] after[g]).members.len() > 0
        &&& forall|m: int|
            0 <= m < after[g].members.len() ==> 0 <= #[trigger] after[g].members[m] < boxes.len()
                && holds(after[g].bbox, boxes[after[g].members[m] as int])
        &&& (forall|r: int| 0 <= r < boxes.len() ==> (#[trigger] boxes[r]).ordered())
            ==> after[g].bbox.ordered()
    } by {
        match first_close(group_boxes(groups), b, horizontal_margin(b), vertical_margin(b)) {
            Some(i) => {
                if g == i {
                    assert(groups[i].members.len() > 0);
                    assert forall|m: int| 0 <= m < after[g].members.len() implies 0
                        <= #[trigger] after[g].members[m] < boxes.len() && holds(
                        after[g].bbox,
                        boxes[after[g].members[m] as int],
                    ) by {
                        if m < groups[i].members.len() {
                            assert(after[g].members[m] == groups[i].members[m]);
                            assert(holds(groups[i].bbox, boxes[groups[i].members[m] as int]));
                        }
                    }
                } else {
                    assert(after[g] == groups[g]);
                }
            },
            None => {
                if g < groups.len() {
                    assert(after[g] == groups[g]);
                }
            },
        }
    }
}

/// Places one run among the groups.
fn place_run(groups: &mut Vec<GroupedTextLayout>, boxes: &Vec<BBox>, run: usize)
    requires
        run < boxes@.len(),
    ensures
        groups_view(final(groups)@) == grouped_with(groups_view(old(groups)@), boxes@, run),
{
    let bbox = boxes[run];
    let height = bbox.y1.minus(bbox.y0).abs().max(Fixed::from_raw(1_000_000));
    let horizontal = height.times(Fixed::from_raw(800_000)).plus(Fixed::from_raw(4_000_000));
    let vertical = height.times(Fixed::from_raw(1_500_000)).plus(Fixed::from_raw(4_000_000));
    let ghost before = groups_view(groups@);
    proof {
        lemma_first_close(group_boxes(before), bbox, horizontal, vertical);
    }
    let mut i: usize = 0;
    while i < groups.len()
        invariant
            i <= groups@.len(),
            run < boxes@.len(),
            bbox == boxes@[run as int],
            horizontal == horizontal_margin(bbox),
            vertical == vertical_margin(bbox),
            groups_view(groups@) == before,
            before == groups_view(old(groups)@),
            forall|j: int|
                0 <= j < i ==> !close_to(
                    #[trigger] group_boxes(before)[j],
                    bbox,
                    horizontal,
                    vertical,
                ),
        decreases groups@.len() - i,
    {
        assert(group_boxes(before)[i as int] == groups@[i as int].bbox);
        if bbox_close(groups[i].bbox, bbox, horizontal, vertical) {
            let mut members = Vec::new();
            let mut taken = GroupedTextLayout { bbox, members };
            groups.set_and_swap(i, &mut taken);
            let ghost old_group = taken@;
            taken.bbox = bbox_union(taken.bbox, bbox);
            taken.members.push(run);
            let ghost new_group = taken@;
            groups.set(i, taken);
            proof {
                lemma_first_close(group_boxes(before), bbox, horizontal, vertical);
                assert(old_group == before[i as int]);
                assert(groups_view(groups@) =~= before.update(i as int, new_group));
            }
            return ;
        }
        i += 1;
    }
    let mut members: Vec<usize> = Vec::new();
    members.push(run);
    let fresh = GroupedTextLayout { bbox, members };
    proof {
        lemma_first_close(group_boxes(before), bbox, horizontal, vertical);
        assert(fresh@.members =~= seq![run]);
        assert(groups_view(groups@.push(fresh)) =~= before.push(fresh@));
    }
    groups.push(fresh);
}

/// Joins lines with line feeds.
fn join_lines(lines: &Vec<String>) -> (combined: String)
    ensures
        combined@ == joined(lines_view(lines@)),
{
    let mut combined = String::new();
    let mut i: usize = 0;
    while i < lines.len()
        invariant
            i <= lines@.len(),
            combined@ == joined(lines_view(lines@).take(i as int)),
        decreases lines@.len() - i,
    {
        proof {
            let part = lines_view(lines@).take(i + 1);
            assert(part.drop_last() =~= lines_view(lines@).take(i as int));
            assert(part.last() == lines@[i as int]@);
            if i == 0 {
                assert(Seq::<char>::empty() + lines@[0]@ =~= lines@[0]@);
            }
        }
        if i > 0 {
            combined.push('\n');
        }
        combined.append(lines[i].as_str());
        i += 1;
    }
    assert(lines_view(lines@).take(i as int) =~= lines_view(lines@));
    combined
}

/// Orders the runs of a group into lines.
fn order_lines(boxes: &Vec<BBox>, members: &Vec<usize>) -> (lines: Vec<usize>)
    requires
        forall|m: int| 0 <= m < members@.len() ==> 0 <= #[trigger] members@[m] < boxes@.len(),
    ensures
        lines@ == line_order(boxes@, members@),
        lines@.len() == members@.len(),
        forall|i: int| 0 <= i < lines@.len() ==> 0 <= #[trigger] lines@[i] < boxes@.len(),
{
    let mut keys: Vec<SortKey> = Vec::new();
    let mut i: usize = 0;
    while i < members.len()
        invariant
            i <= members@.len(),
            forall|m: int| 0 <= m < members@.len() ==> 0 <= #[trigger] members@[m] < boxes@.len(),
            keys@ == line_keys(boxes@, members@).take(i as int),
        decreases members@.len() - i,
    {
        let b = boxes[members[i]];
        keys.push(SortKey { major: b.y0.plus(b.y1).scaled(1, 2), minor: Fixed::zero() });
        assert(keys@ =~= line_keys(boxes@, members@).take(i + 1));
        i += 1;
    }
    assert(keys@ =~= line_keys(boxes@, members@));
    let order = rank(&keys);
    let mut lines: Vec<usize> = Vec::new();
    let mut k: usize = 0;
    while k < order.len()
        invariant
            k <= order@.len(),
            order@.len() == members@.len(),
            is_ranking(keys@, order@),
            keys@.len() == members@.len(),
            forall|m: int| 0 <= m < members@.len() ==> 0 <= #[trigger] members@[m] < boxes@.len(),
            lines@ == order@.map_values(|k: usize| members@[k as int]).take(k as int),
        decreases order@.len() - k,
    {
        lines.push(members[order[k]]);
        assert(lines@ =~= order@.map_values(|k: usize| members@[k as int]).take(k + 1));
        k += 1;
    }
    assert(lines@ =~= order@.map_values(|k: usize| members@[k as int]));
    lines
}

/// Makes the block of text of a plan.
fn build_layout(blocks: &Vec<TextBlock>, bbox: BBox, lines: &Vec<usize>) -> (layout: FinalTextLayout)
    requires
        forall|i: int| 0 <= i < lines@.len() ==> 0 <= #[trigger] lines@[i] < blocks@.len(),
    ensures
        layout@ == planned_layout(blocks_view(blocks@), LayoutPlan { bbox, lines: lines@ }),
{
    let ghost texts = lines@.map_values(|i: usize| blocks_view(blocks@)[i as int].text);
    let mut text_lines: Vec<String> = Vec::new();
    let mut i: usize = 0;
    while i < lines.len()
        invariant
            i <= lines@.len(),
            forall|i: int| 0 <= i < lines@.len() ==> 0 <= #[trigger] lines@[i] < blocks@.len(),
            texts == lines@.map_values(|i: usize| blocks_view(blocks@)[i as int].text),
            lines_view(text_lines@) == texts.take(i as int),
        decreases lines@.len() - i,
    {
        let line = blocks[lines[i]].text.clone();
        proof {
            assert(blocks_view(blocks@)[lines@[i as int] as int] == blocks@[lines@[i as int] as int]@);
            assert(texts[i as int] == line@);
            assert(lines_view(text_lines@.push(line)) =~= lines_view(text_lines@).push(line@));
            assert(texts.take(i as int).push(texts[i as int]) =~= texts.take(i + 1));
        }
        text_lines.push(line);
        i += 1;
    }
    assert(texts.take(i as int) =~= texts);
    let combined = join_lines(&text_lines);
    let is_caption = if text_lines.len() > 0 {
        looks_like_caption(text_lines[0].as_str())
    } else {
        false
    };
    FinalTextLayout { bbox, lines: text_lines, combined, is_caption }
}

/// In the layouts of a page the upper edges never rise, and at one height
/// the left edges never fall.
pub open spec fn from_the_top(layouts: Seq<FinalTextLayoutView>) -> bool {
    forall|i: int, j: int|
        0 <= i < j < layouts.len() ==> (#[trigger] layouts[i]).bbox.y1.raw > (
        #[trigger] layouts[j]).bbox.y1.raw || (layouts[i].bbox.y1.raw == layouts[j].bbox.y1.raw
            && layouts[i].bbox.x0.raw <= layouts[j].bbox.x0.raw)
}

proof fn lemma_grouped_sound(boxes: Seq<BBox>, order: Seq<usize>)
    requires
        forall|i: int| 0 <= i < order.len() ==> 0 <= #[trigger] order[i] < boxes.len(),
    ensures
        groups_sound(grouped(boxes, order), boxes),
        forall|g: int|
            0 <= g < grouped(boxes, order).len() ==> (#[trigger] grouped(
                boxes,
                order,
            )[g]).members.len() <= order.len(),
    decreases order.len(),
{
    if order.len() > 0 {
        let front = order.drop_last();
        assert forall|i: int| 0 <= i < front.len() implies 0 <= #[trigger] front[i]
            < boxes.len() by {
            assert(front[i] == order[i]);
        }
        lemma_grouped_sound(boxes, front);
        let before = grouped(boxes, front);
        lemma_grouped_with_sound(before, boxes, order.last());
        let b = boxes[order.last() as int];
        lemma_first_close(group_boxes(before), b, horizontal_margin(b), vertical_margin(b));
        let after = grouped(boxes, order);
        assert forall|g: int| 0 <= g < after.len() implies (#[trigger] after[g]).members.len()
            <= order.len() by {
            match first_close(group_boxes(before), b, horizontal_margin(b), vertical_margin(b)) {
                Some(i) => {
                    if g != i {
                        assert(after[g] == before[g]);
                    }
                },
                None => {
                    if g < before.len() {
                        assert(after[g] == before[g]);
                    }
                },
            }
        }
    }
}

/// The box of every block of text holds the box of each of its lines: every
/// line of a block is one of the runs, and no edge of the run lies outside
/// the block.
pub proof fn lemma_layouts_hold_their_runs(boxes: Seq<BBox>)
    requires
        boxes.len() <= usize::MAX,
    ensures
        forall|i: int, k: int|
            0 <= i < layout_plans(boxes).len() && 0 <= k < layout_plans(boxes)[i].lines.len()
                ==> 0 <= (#[trigger] layout_plans(boxes)[i].lines[k]) < boxes.len() && holds(
                layout_plans(boxes)[i].bbox,
                boxes[layout_plans(boxes)[i].lines[k] as int],
            ),
{
    let keys = boxes.map_values(|b: BBox| box_key(b));
    let order = ranking(keys);
    lemma_ranking(keys);
    lemma_grouped_sound(boxes, order);
    let groups = grouped(boxes, order);
    let plans = planned_groups(boxes);
    let plan_keys = plans.map_values(|p: LayoutPlan| box_key(p.bbox));
    let final_order = ranking(plan_keys);
    assert(groups.len() <= order.len()) by {
        lemma_group_count(boxes, order);
    }
    lemma_ranking(plan_keys);
    assert forall|i: int, k: int|
        0 <= i < layout_plans(boxes).len() && 0 <= k < layout_plans(boxes)[i].lines.len() implies 0
            <= (#[trigger] layout_plans(boxes)[i].lines[k]) < boxes.len() && holds(
        layout_plans(boxes)[i].bbox,
        boxes[layout_plans(boxes)[i].lines[k] as int],
    ) by {
        let g = final_order[i] as int;
        assert(layout_plans(boxes)[i] == plans[g]);
        let group = groups[g];
        assert(plans[g].bbox == group.bbox);
        let line_ranks = ranking(line_keys(boxes, group.members));
        lemma_ranking(line_keys(boxes, group.members));
        let m = line_ranks[k] as int;
        assert(plans[g].lines[k] == group.members[m]);
    }
}

/// There are no more groups than runs were placed.
proof fn lemma_group_count(boxes: Seq<BBox>, order: Seq<usize>)
    ensures
        grouped(boxes, order).len() <= order.len(),
    decreases order.len(),
{
    if order.len() > 0 {
        lemma_group_count(boxes, order.drop_last());
        let before = grouped(boxes, order.drop_last());
        let b = boxes[order.last() as int];
        lemma_first_close(group_boxes(before), b, horizontal_margin(b), vertical_margin(b));
        assert(grouped(boxes, order) == grouped_with(before, boxes, order.last()));
        assert(grouped_with(before, boxes, order.last()).len() <= before.len() + 1);
    }
}

/// Clusters the runs of a page into blocks of text.
pub fn build_text_layouts(blocks: &Vec<TextBlock>) -> (layouts: Vec<FinalTextLayout>)
    ensures
        layouts_view(layouts@) == text_layouts(blocks_view(blocks@)),
        from_the_top(layouts_view(layouts@)),
        (forall|r: int| 0 <= r < blocks@.len() ==> (#[trigger] blocks@[r])@.bbox().ordered())
            ==> forall|i: int| 0 <= i < layouts@.len() ==> (#[trigger] layouts@[i]).bbox.ordered(),
{
    let ghost views = blocks_view(blocks@);
    let ghost spec_boxes = run_boxes(views);
    let mut boxes: Vec<BBox> = Vec::new();
    let mut keys: Vec<SortKey> = Vec::new();
    let mut i: usize = 0;
    while i < blocks.len()
        invariant
            i <= blocks@.len(),
            views == blocks_view(blocks@),
            spec_boxes == run_boxes(views),
            boxes@ == spec_boxes.take(i as int),
            keys@ == spec_boxes.map_values(|b: BBox| box_key(b)).take(i as int),
        decreases blocks@.len() - i,
    {
        let b = &blocks[i];
        let bbox = BBox { x0: b.x0, y0: b.y0, x1: b.x1, y1: b.y1 };
        boxes.push(bbox);
        keys.push(SortKey { major: b.y1, minor: b.x0 });
        proof {
            assert(boxes@ =~= spec_boxes.take(i + 1));
            assert(keys@ =~= spec_boxes.map_values(|b: BBox| box_key(b)).take(i + 1));
        }
        i += 1;
    }
    proof {
        assert(boxes@ =~= spec_boxes);
        assert(keys@ =~= spec_boxes.map_values(|b: BBox| box_key(b)));
    }
    let order = rank(&keys);
    let mut groups: Vec<GroupedTextLayout> = Vec::new();
    let mut k: usize = 0;
    assert(groups_view(groups@) =~= Seq::<Group>::empty());
    while k < order.len()
        invariant
            k <= order@.len(),
            is_ranking(keys@, order@),
            keys@.len() == boxes@.len(),
            groups_view(groups@) == grouped(boxes@, order@.take(k as int)),
        decreases order@.len() - k,
    {
        proof {
            assert(order@.take(k + 1).drop_last() =~= order@.take(k as int));
            assert(order@.take(k + 1).last() == order@[k as int]);
        }
        place_run(&mut groups, &boxes, order[k]);
        k += 1;
    }
    proof {
        assert(order@.take(k as int) =~= order@);
        lemma_grouped_sound(boxes@, order@);
    }
    let ghost spec_groups = groups_view(groups@);
    let ghost plans = planned_groups(spec_boxes);
    let mut plan_lines: Vec<Vec<usize>> = Vec::new();
    let mut plan_keys: Vec<SortKey> = Vec::new();
    let mut g: usize = 0;
    while g < groups.len()
        invariant
            g <= groups@.len(),
            spec_groups == groups_view(groups@),
            groups_sound(spec_groups, boxes@),
            boxes@ == spec_boxes,
            plans == spec_groups.map_values(
                |g: Group| LayoutPlan { bbox: g.bbox, lines: line_order(spec_boxes, g.members) },
            ),
            plan_lines@.len() == g,
            forall|p: int|
                0 <= p < g ==> (#[trigger] plan_lines@[p])@ == plans[p].lines && forall|i: int|
                    0 <= i < plan_lines@[p]@.len() ==> 0 <= #[trigger] plan_lines@[p]@[i]
                        < boxes@.len(),
            plan_keys@ == plans.map_values(|p: LayoutPlan| box_key(p.bbox)).take(g as int),
        decreases groups@.len() - g,
    {
        let group = &groups[g];
        proof {
            assert(spec_groups[g as int] == group@);
            assert forall|m: int| 0 <= m < group.members@.len() implies 0
                <= #[trigger] group.members@[m] < boxes@.len() by {
                assert(spec_groups[g as int].members[m] == group.members@[m]);
            }
        }
        let lines = order_lines(&boxes, &group.members);
        plan_lines.push(lines);
        plan_keys.push(SortKey { major: group.bbox.y1, minor: group.bbox.x0 });
        proof {
            assert(plan_keys@ =~= plans.map_values(|p: LayoutPlan| box_key(p.bbox)).take(g + 1));
        }
        g += 1;
    }
    proof {
        assert(plan_keys@ =~= plans.map_values(|p: LayoutPlan| box_key(p.bbox)));
    }
    let final_order = rank(&plan_keys);
    let ghost sorted_plans = layout_plans(spec_boxes);
    let mut layouts: Vec<FinalTextLayout> = Vec::new();
    let mut n: usize = 0;
    assert(layouts_view(layouts@) =~= text_layouts(views).take(0));
    while n < final_order.len()
        invariant
            n <= final_order@.len(),
            views == blocks_view(blocks@),
            spec_boxes == run_boxes(views),
            boxes@ == spec_boxes,
            spec_groups == groups_view(groups@),
            groups_sound(spec_groups, boxes@),
            plans == planned_groups(spec_boxes),
            plans.len() == groups@.len(),
            plan_lines@.len() == groups@.len(),
            forall|p: int|
                0 <= p < plans.len() ==> (#[trigger] plan_lines@[p])@ == plans[p].lines
                    && plans[p].bbox == groups@[p].bbox && forall|i: int|
                    0 <= i < plan_lines@[p]@.len() ==> 0 <= #[trigger] plan_lines@[p]@[i]
                        < boxes@.len(),
            plan_keys@ == plans.map_values(|p: LayoutPlan| box_key(p.bbox)),
            final_order@ == ranking(plan_keys@),
            is_ranking(plan_keys@, final_order@),
            sorted_plans == layout_plans(spec_boxes),
            layouts_view(layouts@) == text_layouts(views).take(n as int),
            layouts@.len() == n,
        decreases final_order@.len() - n,
    {
        let p = final_order[n];
        proof {
            assert(spec_groups[p as int] == groups@[p as int]@);
            assert(boxes@.len() == blocks@.len());
        }
        let layout = build_layout(blocks, groups[p].bbox, &plan_lines[p]);
        proof {
            assert(sorted_plans[n as int] == plans[p as int]);
            assert(plans[p as int] == LayoutPlan {
                bbox: groups@[p as int].bbox,
                lines: plan_lines@[p as int]@,
            });
            assert(text_layouts(views)[n as int] == planned_layout(views, sorted_plans[n as int]));
            assert(layouts_view(layouts@.push(layout)) =~= text_layouts(views).take(n + 1));
        }
        layouts.push(layout);
        n += 1;
    }
    proof {
        assert(text_layouts(views).take(n as int) =~= text_layouts(views));
        let shown = layouts_view(layouts@);
        assert forall|i: int| 0 <= i < shown.len() implies (#[trigger] shown[i]).bbox
            == spec_groups[final_order@[i] as int].bbox by {
            assert(shown[i] == planned_layout(views, sorted_plans[i]));
            assert(sorted_plans[i] == plans[final_order@[i] as int]);
        }
        assert forall|i: int, j: int| 0 <= i < j < shown.len() implies (
        #[trigger] shown[i]).bbox.y1.raw > (#[trigger] shown[j]).bbox.y1.raw || (
        shown[i].bbox.y1.raw == shown[j].bbox.y1.raw && shown[i].bbox.x0.raw
            <= shown[j].bbox.x0.raw) by {
            let a = final_order@[i] as int;
            let b = final_order@[j] as int;
            assert(crate::ordering::comes_before(plan_keys@, a, b));
            assert(plan_keys@[a] == box_key(spec_groups[a].bbox));
            assert(plan_keys@[b] == box_key(spec_groups[b].bbox));
        }
        if forall|r: int| 0 <= r < blocks@.len() ==> (#[trigger] blocks@[r])@.bbox().ordered() {
            assert forall|r: int| 0 <= r < boxes@.len() implies (#[trigger] boxes@[r]).ordered() by {
                assert(boxes@[r] == blocks@[r]@.bbox());
            }
            assert forall|i: int| 0 <= i < layouts@.len() implies (
            #[trigger] layouts@[i]).bbox.ordered() by {
                let a = final_order@[i] as int;
                assert(shown[i].bbox == layouts@[i].bbox);
                assert(spec_groups[a].bbox.ordered());
            }
        }
    }
    layouts
}

} // verus!
