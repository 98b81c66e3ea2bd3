//! The text state of a content stream and the runs of text that it places.

use crate::fixed::Fixed;
use crate::font::{
    decoded, fallback_decode, find_font, font_named, DecodedText, NamedFont, ResolvedFont,
    DEFAULT_ASCENT, DEFAULT_DESCENT, DEFAULT_GLYPH_WIDTH,
};
use crate::geometry::{
    apply_matrix, composed, hull, lemma_hull, multiply_matrix, points_bbox, transformed, BBox,
    Matrix, Point,
};
use crate::ops::{Op, TextItem};
use vstd::prelude::*;

verus! {

/// The code of the space character, which takes the word spacing.
pub const SPACE_CODE: u16 = 32;

/// A run of text as it stands on the page: its text, the box around it and
/// the point where its baseline begins.
#[derive(Clone, Debug)]
pub struct TextBlock {
    pub text: String,
    pub x0: Fixed,
    pub y0: Fixed,
    pub x1: Fixed,
    pub y1: Fixed,
    pub baseline_x: Fixed,
    pub baseline_y: Fixed,
}

/// A run of text with its text as a sequence of characters.
pub struct TextBlockView {
    pub text: Seq<char>,
    pub x0: Fixed,
    pub y0: Fixed,
    pub x1: Fixed,
    pub y1: Fixed,
    pub baseline_x: Fixed,
    pub baseline_y: Fixed,
}

impl View for TextBlock {
    type V = TextBlockView;

    open spec fn view(&self) -> TextBlockView {
        TextBlockView {
            text: self.text@,
            x0: self.x0,
            y0: self.y0,
            x1: self.x1,
            y1: self.y1,
            baseline_x: self.baseline_x,
            baseline_y: self.baseline_y,
        }
    }
}

impl TextBlockView {
    /// The box around the run.
    pub open spec fn bbox(self) -> BBox {
        BBox { x0: self.x0, y0: self.y0, x1: self.x1, y1: self.y1 }
    }
}

/// The runs of a list, each as its view.
pub open spec fn blocks_view(blocks: Seq<TextBlock>) -> Seq<TextBlockView> {
    blocks.map_values(|b: TextBlock| b@)
}

/// The text state of a content stream.
#[derive(Debug)]
pub struct TextState {
    pub current_font: Option<String>,
    pub font_size: Fixed,
    pub char_spacing: Fixed,
    pub word_spacing: Fixed,
    /// In percent.
    pub horizontal_scale: Fixed,
    pub leading: Fixed,
    pub text_rise: Fixed,
    pub text_matrix: Matrix,
    /// The text matrix as it was at the start of the line.
    pub text_line_matrix: Matrix,
}

/// The text state with the name of its font as a sequence of characters.
pub struct TextStateView {
    pub current_font: Option<Seq<char>>,
    pub font_size: Fixed,
    pub char_spacing: Fixed,
    pub word_spacing: Fixed,
    pub horizontal_scale: Fixed,
    pub leading: Fixed,
    pub text_rise: Fixed,
    pub text_matrix: Matrix,
    pub text_line_matrix: Matrix,
}

impl View for TextState {
    type V = TextStateView;

    open spec fn view(&self) -> TextStateView {
        TextStateView {
            current_font: match self.current_font {
                Some(name) => Some(name@),
                None => None,
            },
            font_size: self.font_size,
            char_spacing: self.char_spacing,
            word_spacing: self.word_spacing,
            horizontal_scale: self.horizontal_scale,
            leading: self.leading,
            text_rise: self.text_rise,
            text_matrix: self.text_matrix,
            text_line_matrix: self.text_line_matrix,
        }
    }
}

impl TextStateView {
    /// The state in which a content stream starts: no font, size 12, no
    /// spacing, full horizontal scale.
    pub open spec fn initial() -> TextStateView {
        TextStateView {
            current_font: None,
            font_size: Fixed { raw: 12_000_000 },
            char_spacing: Fixed { raw: 0 },
            word_spacing: Fixed { raw: 0 },
            horizontal_scale: Fixed { raw: 100_000_000 },
            leading: Fixed { raw: 0 },
            text_rise: Fixed { raw: 0 },
            text_matrix: Matrix::identity(),
            text_line_matrix: Matrix::identity(),
        }
    }

    /// The state at the start of a text object: both matrices are the
    /// identity, everything else is as it was.
    pub open spec fn begun(self) -> TextStateView {
        TextStateView {
            text_matrix: Matrix::identity(),
            text_line_matrix: Matrix::identity(),
            ..self
        }
    }

    /// The state with both matrices set to `matrix`.
    pub open spec fn with_matrix(self, matrix: Matrix) -> TextStateView {
        TextStateView { text_matrix: matrix, text_line_matrix: matrix, ..self }
    }

    /// The state with the given font and size.
    pub open spec fn with_font(self, name: Seq<char>, size: Fixed) -> TextStateView {
        TextStateView { current_font: Some(name), font_size: size, ..self }
    }

    /// The state after the start of the line has moved by `(tx, ty)` in text
    /// space: the text matrix starts anew from the moved line matrix.
    pub open spec fn line_moved(self, tx: Fixed, ty: Fixed) -> TextStateView {
        let moved = composed(self.text_line_matrix, Matrix::translation(tx, ty));
        TextStateView { text_matrix: moved, text_line_matrix: moved, ..self }
    }

    /// The state at the start of the next line, one leading further down.
    pub open spec fn next_line(self) -> TextStateView {
        self.line_moved(Fixed { raw: 0 }, self.leading.neg())
    }

    /// The state after the text position has moved by `tx` along the line.
    pub open spec fn text_moved(self, tx: Fixed) -> TextStateView {
        TextStateView {
            text_matrix: composed(self.text_matrix, Matrix::translation(tx, Fixed { raw: 0 })),
            ..self
        }
    }

    /// The state after a move along the line that is skipped where it is zero.
    pub open spec fn advanced(self, tx: Fixed) -> TextStateView {
        if tx.raw != 0 {
            self.text_moved(tx)
        } else {
            self
        }
    }
}

impl Default for TextState {
    /// The state in which a content stream starts.
    fn default() -> (state: TextState)
        ensures
            state@ == TextStateView::initial(),
    {
        TextState {
            current_font: None,
            font_size: Fixed::from_raw(12_000_000),
            char_spacing: Fixed::zero(),
            word_spacing: Fixed::zero(),
            horizontal_scale: Fixed::from_raw(100_000_000),
            leading: Fixed::zero(),
            text_rise: Fixed::zero(),
            text_matrix: Matrix::identity(),
            text_line_matrix: Matrix::identity(),
        }
    }
}

impl TextState {
    /// Starts a text object: both matrices become the identity.
    pub fn begin_text(&mut self)
        ensures
            final(self)@ == old(self)@.begun(),
            final(self).text_matrix == Matrix::identity(),
            final(self).text_line_matrix == Matrix::identity(),
    {
        self.text_matrix = Matrix::identity();
        self.text_line_matrix = Matrix::identity();
    }

    /// Sets the text matrix and the line matrix to `matrix`.
    pub fn set_text_matrix(&mut self, matrix: Matrix)
        ensures
            final(self)@ == old(self)@.with_matrix(matrix),
    {
        self.text_matrix = matrix;
        self.text_line_matrix = matrix;
    }

    /// Selects a font and its size.
    pub fn set_font(&mut self, name: &String, size: Fixed)
        ensures
            final(self)@ == old(self)@.with_font(name@, size),
    {
        self.current_font = Some(name.clone());
        self.font_size = size;
    }

    /// Sets the space added after every glyph.
    pub fn set_char_spacing(&mut self, spacing: Fixed)
        ensures
            final(self)@ == (TextStateView { char_spacing: spacing, ..old(self)@ }),
    {
        self.char_spacing = spacing;
    }

    /// Sets the space added after every space character.
    pub fn set_word_spacing(&mut self, spacing: Fixed)
        ensures
            final(self)@ == (TextStateView { word_spacing: spacing, ..old(self)@ }),
    {
        self.word_spacing = spacing;
    }

    /// Sets the horizontal scale, in percent.
    pub fn set_horizontal_scale(&mut self, scale: Fixed)
        ensures
            final(self)@ == (TextStateView { horizontal_scale: scale, ..old(self)@ }),
    {
        self.horizontal_scale = scale;
    }

    /// Sets the distance between the baselines of two lines.
    pub fn set_leading(&mut self, leading: Fixed)
        ensures
            final(self)@ == (TextStateView { leading, ..old(self)@ }),
    {
        self.leading = leading;
    }

    /// Sets how far the baseline is raised.
    pub fn set_text_rise(&mut self, rise: Fixed)
        ensures
            final(self)@ == (TextStateView { text_rise: rise, ..old(self)@ }),
    {
        self.text_rise = rise;
    }

    /// Moves the start of the line by `(tx, ty)` and the text position with
    /// it.
    pub fn translate_line(&mut self, tx: Fixed, ty: Fixed)
        ensures
            final(self)@ == old(self)@.line_moved(tx, ty),
    {
        let translation = Matrix::translation(tx, ty);
        self.text_line_matrix = multiply_matrix(&translation, &self.text_line_matrix);
        self.text_matrix = self.text_line_matrix;
    }

    /// Moves to the start of the next line.
    pub fn newline(&mut self)
        ensures
            final(self)@ == old(self)@.next_line(),
    {
        let down = self.leading.neg();
        self.translate_line(Fixed::zero(), down);
    }

    /// Moves the text position by `tx` along the line.
    pub fn translate_text(&mut self, tx: Fixed)
        ensures
            final(self)@ == old(self)@.text_moved(tx),
    {
        let translation = Matrix::translation(tx, Fixed::zero());
        self.text_matrix = multiply_matrix(&translation, &self.text_matrix);
    }
}

/// How far one glyph moves the text position, before horizontal scaling: its
/// width in thousandths times the font size, plus the character spacing,
/// plus the word spacing for a space. A glyph of an unknown font or of a font
/// without widths is one font size wide.
pub open spec fn advance(font: Option<ResolvedFont>, code: u16, state: TextStateView) -> Fixed {
    let width = match font {
        Some(f) => f.glyph_width_of(code),
        None => Fixed { raw: DEFAULT_GLYPH_WIDTH },
    };
    let own = width.scaled(1, 1000).times(state.font_size).plus(state.char_spacing);
    if code == SPACE_CODE {
        own.plus(state.word_spacing)
    } else {
        own
    }
}

/// The sum of the advances of the glyphs.
pub open spec fn advances(font: Option<ResolvedFont>, codes: Seq<u16>, state: TextStateView) -> Fixed
    decreases codes.len(),
{
    if codes.len() == 0 {
        Fixed { raw: 0 }
    } else {
        advances(font, codes.drop_last(), state).plus(advance(font, codes.last(), state))
    }
}

/// How far a run moves the text position: the sum of the advances of its
/// glyphs, times the horizontal scale in hundredths.
pub open spec fn displacement(font: Option<ResolvedFont>, codes: Seq<u16>, state: TextStateView) -> Fixed {
    advances(font, codes, state).times(state.horizontal_scale.scaled(1, 100))
}

/// Computes how far a run of the given glyphs moves the text position.
pub fn compute_text_displacement(font: Option<&ResolvedFont>, codes: &Vec<u16>, state: &TextState) -> (d:
    Fixed)
    ensures
        d == displacement(
            match font {
                Some(f) => Some(*f),
                None => None,
            },
            codes@,
            state@,
        ),
{
    let ghost spec_font: Option<ResolvedFont> = match font {
        Some(f) => Some(*f),
        None => None,
    };
    let mut total = Fixed::zero();
    let mut i: usize = 0;
    while i < codes.len()
        invariant
            i <= codes@.len(),
            spec_font == match font {
                Some(f) => Some(*f),
                None => None,
            },
            total == advances(spec_font, codes@.take(i as int), state@),
        decreases codes@.len() - i,
    {
        let code = codes[i];
        let glyph_width = match font {
            Some(f) => f.glyph_width(code),
            None => Fixed::from_raw(DEFAULT_GLYPH_WIDTH),
        };
        let mut step = glyph_width.scaled(1, 1000).times(state.font_size);
        step = step.plus(state.char_spacing);
        if code == SPACE_CODE {
            step = step.plus(state.word_spacing);
        }
        proof {
            assert(codes@.take(i + 1).drop_last() =~= codes@.take(i as int));
        }
        total = total.plus(step);
        i += 1;
    }
    assert(codes@.take(i as int) =~= codes@);
    total.times(state.horizontal_scale.scaled(1, 100))
}

/// The six points that span a run in text space: the ends of the baseline,
/// and above and below each of them the ascent and the descent.
pub open spec fn run_corners(state: TextStateView, displacement: Fixed, metrics: (Fixed, Fixed)) -> Seq<
    Point,
> {
    let ascent = metrics.0.scaled(1, 1000).times(state.font_size);
    let descent = metrics.1.scaled(1, 1000).times(state.font_size);
    let rise = state.text_rise;
    let zero = Fixed { raw: 0 };
    seq![
        Point { x: zero, y: rise },
        Point { x: displacement, y: rise },
        Point { x: zero, y: ascent.plus(rise) },
        Point { x: displacement, y: ascent.plus(rise) },
        Point { x: zero, y: descent.plus(rise) },
        Point { x: displacement, y: descent.plus(rise) },
    ]
}

/// The run that a text of the given displacement makes in a state: its box
/// is the hull of its six corner points under the text matrix, its baseline
/// begins where the text matrix takes the point at the height of the rise.
pub open spec fn placed_run(
    state: TextStateView,
    text: Seq<char>,
    displacement: Fixed,
    metrics: (Fixed, Fixed),
) -> TextBlockView {
    let bounds = hull(
        run_corners(state, displacement, metrics).map_values(
            |p: Point| transformed(state.text_matrix, p),
        ),
    );
    let baseline = transformed(state.text_matrix, Point { x: Fixed { raw: 0 }, y: state.text_rise });
    TextBlockView {
        text,
        x0: bounds.x0,
        y0: bounds.y0,
        x1: bounds.x1,
        y1: bounds.y1,
        baseline_x: baseline.x,
        baseline_y: baseline.y,
    }
}

/// Places a run of text in the current state.
pub fn build_text_block(state: &TextState, text: String, displacement: Fixed, metrics: (Fixed, Fixed)) -> (block:
    TextBlock)
    ensures
        block@ == placed_run(state@, text@, displacement, metrics),
        block@.bbox().ordered(),
{
    let ascent = metrics.0.scaled(1, 1000).times(state.font_size);
    let descent = metrics.1.scaled(1, 1000).times(state.font_size);
    let rise = state.text_rise;
    let zero = Fixed::zero();
    let mut points: Vec<Point> = Vec::new();
    points.push(apply_matrix(&state.text_matrix, Point { x: zero, y: rise }));
    points.push(apply_matrix(&state.text_matrix, Point { x: displacement, y: rise }));
    points.push(apply_matrix(&state.text_matrix, Point { x: zero, y: ascent.plus(rise) }));
    points.push(apply_matrix(&state.text_matrix, Point { x: displacement, y: ascent.plus(rise) }));
    points.push(apply_matrix(&state.text_matrix, Point { x: zero, y: descent.plus(rise) }));
    points.push(apply_matrix(&state.text_matrix, Point { x: displacement, y: descent.plus(rise) }));
    proof {
        assert(points@ =~= run_corners(state@, displacement, metrics).map_values(
            |p: Point| transformed(state@.text_matrix, p),
        ));
        lemma_hull(points@);
    }
    let bounds = match points_bbox(&points) {
        Some(b) => b,
        None => BBox { x0: zero, y0: zero, x1: zero, y1: zero },
    };
    let baseline = apply_matrix(&state.text_matrix, Point { x: zero, y: rise });
    TextBlock {
        text,
        x0: bounds.x0,
        y0: bounds.y0,
        x1: bounds.x1,
        y1: bounds.y1,
        baseline_x: baseline.x,
        baseline_y: baseline.y,
    }
}

/// Ascent and descent of a font, or the defaults where it gives none.
pub open spec fn metrics_or_default(font: Option<ResolvedFont>) -> (Fixed, Fixed) {
    let fallback = (Fixed { raw: DEFAULT_ASCENT }, Fixed { raw: DEFAULT_DESCENT });
    match font {
        Some(f) => match f.metrics {
            Some(m) => m,
            None => fallback,
        },
        None => fallback,
    }
}

/// What drawing a string does: the state afterwards and the run that was
/// placed. A string that decodes to no text places no run and moves nothing.
pub open spec fn after_draw(state: TextStateView, fonts: Seq<NamedFont>, bytes: Seq<u8>) -> (
    TextStateView,
    Option<TextBlockView>,
) {
    let font = font_named(fonts, state.current_font);
    let text = decoded(font, bytes);
    if text.text.len() == 0 {
        (state, None)
    } else {
        let moved = displacement(font, text.codes, state);
        (
            state.advanced(moved),
            Some(placed_run(state, text.text, moved, metrics_or_default(font))),
        )
    }
}

/// The runs with one more, if there is one.
pub open spec fn with_run(runs: Seq<TextBlockView>, run: Option<TextBlockView>) -> Seq<TextBlockView> {
    match run {
        Some(r) => runs.push(r),
        None => runs,
    }
}

/// Draws a string: decodes it in the current font, places the run and moves
/// the text position past it.
pub fn handle_text_draw(
    state: &mut TextState,
    fonts: &Vec<NamedFont>,
    text: &Vec<u8>,
    blocks: &mut Vec<TextBlock>,
)
    ensures
        final(state)@ == after_draw(old(state)@, fonts@, text@).0,
        blocks_view(final(blocks)@) == with_run(
            blocks_view(old(blocks)@),
            after_draw(old(state)@, fonts@, text@).1,
        ),
{
    let font: Option<&ResolvedFont> = match &state.current_font {
        Some(name) => find_font(fonts, name),
        None => None,
    };
    let decoded_text: DecodedText = match font {
        Some(resolved) => resolved.decode(text.as_slice()),
        None => fallback_decode(text.as_slice()),
    };
    if decoded_text.text.as_str().is_empty() {
        return ;
    }
    let moved = compute_text_displacement(font, &decoded_text.codes, state);
    let fallback = (Fixed::from_raw(DEFAULT_ASCENT), Fixed::from_raw(DEFAULT_DESCENT));
    let metrics = match font {
        Some(resolved) => match resolved.metrics() {
            Some(m) => m,
            None => fallback,
        },
        None => fallback,
    };
    let block = build_text_block(state, decoded_text.text, moved, metrics);
    proof {
        assert(blocks_view(blocks@.push(block)) =~= blocks_view(blocks@).push(block@));
    }
    blocks.push(block);
    if moved.raw != 0 {
        state.translate_text(moved);
    }
}

/// How far a spacing of an array moves the text position: against its sign,
/// in thousandths of the font size, times the horizontal scale.
pub open spec fn spacing_shift(state: TextStateView, amount: Fixed) -> Fixed {
    amount.neg().scaled(1, 1000).times(state.font_size).times(state.horizontal_scale.scaled(1, 100))
}

/// What one element of an array does to the state, and the run it places.
pub open spec fn after_item(state: TextStateView, fonts: Seq<NamedFont>, item: TextItem) -> (
    TextStateView,
    Option<TextBlockView>,
) {
    match item {
        TextItem::Text(bytes) => after_draw(state, fonts, bytes@),
        TextItem::Spacing(amount) => (state.advanced(spacing_shift(state, amount)), None),
    }
}

/// What the elements of an array do one after the other: the state
/// afterwards and the runs that were placed, in their order.
pub open spec fn after_items(state: TextStateView, fonts: Seq<NamedFont>, items: Seq<TextItem>) -> (
    TextStateView,
    Seq<TextBlockView>,
)
    decreases items.len(),
{
    if items.len() == 0 {
        (state, Seq::<TextBlockView>::empty())
    } else {
        let before = after_items(state, fonts, items.drop_last());
        let last = after_item(before.0, fonts, items.last());
        (last.0, with_run(before.1, last.1))
    }
}

/// Draws an array of strings and adjustments.
pub fn handle_text_adjusted(
    state: &mut TextState,
    fonts: &Vec<NamedFont>,
    array: &Vec<TextItem>,
    blocks: &mut Vec<TextBlock>,
)
    ensures
        final(state)@ == after_items(old(state)@, fonts@, array@).0,
        blocks_view(final(blocks)@) == blocks_view(old(blocks)@) + after_items(
            old(state)@,
            fonts@,
            array@,
        ).1,
{
    let mut i: usize = 0;
    assert(blocks_view(blocks@) + Seq::<TextBlockView>::empty() =~= blocks_view(blocks@));
    while i < array.len()
        invariant
            i <= array@.len(),
            state@ == after_items(old(state)@, fonts@, array@.take(i as int)).0,
            blocks_view(blocks@) == blocks_view(old(blocks)@) + after_items(
                old(state)@,
                fonts@,
                array@.take(i as int),
            ).1,
        decreases array@.len() - i,
    {
        let ghost before_state = state@;
        let ghost before_blocks = blocks_view(blocks@);
        proof {
            assert(array@.take(i + 1).drop_last() =~= array@.take(i as int));
            assert(array@.take(i + 1).last() == array@[i as int]);
        }
        match &array[i] {
            TextItem::Text(text) => {
                handle_text_draw(state, fonts, text, blocks);
            },
            TextItem::Spacing(amount) => {
                let shift = amount.neg().scaled(1, 1000).times(state.font_size).times(
                    state.horizontal_scale.scaled(1, 100),
                );
                if shift.raw != 0 {
                    state.translate_text(shift);
                }
            },
        }
        proof {
            let prior = after_items(old(state)@, fonts@, array@.take(i as int));
            let step = after_item(before_state, fonts@, array@[i as int]);
            assert(blocks_view(blocks@) =~= blocks_view(old(blocks)@) + with_run(prior.1, step.1));
        }
        i += 1;
    }
    assert(array@.take(i as int) =~= array@);
}

/// What one operator does to the text state, and the runs it places.
pub open spec fn text_step(state: TextStateView, fonts: Seq<NamedFont>, op: Op) -> (
    TextStateView,
    Seq<TextBlockView>,
) {
    let none = Seq::<TextBlockView>::empty();
    match op {
        Op::BeginText => (state.begun(), none),
        Op::SetTextMatrix { matrix } => (state.with_matrix(matrix), none),
        Op::MoveTextPosition { translation } => (
            state.line_moved(translation.x, translation.y),
            none,
        ),
        Op::TextNewline => (state.next_line(), none),
        Op::TextFont { name, size } => (state.with_font(name@, size), none),
        Op::CharSpacing { char_space } => (TextStateView { char_spacing: char_space, ..state }, none),
        Op::WordSpacing { word_space } => (TextStateView { word_spacing: word_space, ..state }, none),
        Op::TextScaling { horiz_scale } => (
            TextStateView { horizontal_scale: horiz_scale, ..state },
            none,
        ),
        Op::Leading { leading } => (TextStateView { leading, ..state }, none),
        Op::TextRise { rise } => (TextStateView { text_rise: rise, ..state }, none),
        Op::TextDraw { text } => {
            let drawn = after_draw(state, fonts, text@);
            (drawn.0, with_run(none, drawn.1))
        },
        Op::TextDrawAdjusted { array } => after_items(state, fonts, array@),
        _ => (state, none),
    }
}

/// What a sequence of operators does, starting from the initial text state:
/// the state afterwards and the runs that were placed, in their order.
pub open spec fn text_pass(fonts: Seq<NamedFont>, ops: Seq<Op>) -> (TextStateView, Seq<TextBlockView>)
    decreases ops.len(),
{
    if ops.len() == 0 {
        (TextStateView::initial(), Seq::<TextBlockView>::empty())
    } else {
        let before = text_pass(fonts, ops.drop_last());
        let last = text_step(before.0, fonts, ops.last());
        (last.0, before.1 + last.1)
    }
}

/// The runs of text of a content stream, in the order of its operators.
pub open spec fn text_runs(fonts: Seq<NamedFont>, ops: Seq<Op>) -> Seq<TextBlockView> {
    text_pass(fonts, ops).1
}

/// Runs are placed in the order of the operators: what the first `k`
/// operators place stands first, unchanged, in what all of them place.
pub proof fn lemma_text_runs_keep_order(fonts: Seq<NamedFont>, ops: Seq<Op>, k: int)
    requires
        0 <= k <= ops.len(),
    ensures
        text_runs(fonts, ops.take(k)).len() <= text_runs(fonts, ops).len(),
        text_runs(fonts, ops.take(k)) == text_runs(fonts, ops).take(
            text_runs(fonts, ops.take(k)).len() as int,
        ),
    decreases ops.len(),
{
    if k == ops.len() {
        assert(ops.take(k) =~= ops);
        assert(text_runs(fonts, ops).take(text_runs(fonts, ops).len() as int) =~= text_runs(
            fonts,
            ops,
        ));
    } else {
        let front = ops.drop_last();
        lemma_text_runs_keep_order(fonts, front, k);
        assert(front.take(k) =~= ops.take(k));
        let part = text_runs(fonts, ops.take(k));
        assert(part =~= text_runs(fonts, ops).take(part.len() as int));
    }
}

/// The box of a run is in order, whatever the state and the text.
pub proof fn lemma_placed_run_ordered(
    state: TextStateView,
    text: Seq<char>,
    displacement: Fixed,
    metrics: (Fixed, Fixed),
)
    ensures
        placed_run(state, text, displacement, metrics).bbox().ordered(),
{
    lemma_hull(
        run_corners(state, displacement, metrics).map_values(
            |p: Point| transformed(state.text_matrix, p),
        ),
    );
}

/// The box of the run that drawing a string places is in order.
pub proof fn lemma_drawn_run_ordered(state: TextStateView, fonts: Seq<NamedFont>, bytes: Seq<u8>)
    ensures
        after_draw(state, fonts, bytes).1 matches Some(run) ==> run.bbox().ordered(),
{
    let font = font_named(fonts, state.current_font);
    let text = decoded(font, bytes);
    lemma_placed_run_ordered(
        state,
        text.text,
        displacement(font, text.codes, state),
        metrics_or_default(font),
    );
}

/// The boxes of the runs of an array are in order.
pub proof fn lemma_items_runs_ordered(state: TextStateView, fonts: Seq<NamedFont>, items: Seq<TextItem>)
    ensures
        forall|i: int|
            0 <= i < after_items(state, fonts, items).1.len() ==> (#[trigger] after_items(
                state,
                fonts,
                items,
            ).1[i]).bbox().ordered(),
    decreases items.len(),
{
    if items.len() > 0 {
        lemma_items_runs_ordered(state, fonts, items.drop_last());
        let before = after_items(state, fonts, items.drop_last());
        match items.last() {
            TextItem::Text(bytes) => {
                lemma_drawn_run_ordered(before.0, fonts, bytes@);
            },
            TextItem::Spacing(_) => {},
        }
    }
}

/// The boxes of the runs that one operator places are in order.
pub proof fn lemma_step_runs_ordered(state: TextStateView, fonts: Seq<NamedFont>, op: Op)
    ensures
        forall|i: int|
            0 <= i < text_step(state, fonts, op).1.len() ==> (#[trigger] text_step(
                state,
                fonts,
                op,
            ).1[i]).bbox().ordered(),
{
    match op {
        Op::TextDraw { text } => {
            lemma_drawn_run_ordered(state, fonts, text@);
        },
        Op::TextDrawAdjusted { array } => {
            lemma_items_runs_ordered(state, fonts, array@);
        },
        _ => {},
    }
}

/// The box of every run of a content stream is in order: its left edge is
/// not right of its right edge, nor its lower edge above its upper edge.
pub proof fn lemma_text_runs_ordered(fonts: Seq<NamedFont>, ops: Seq<Op>)
    ensures
        forall|i: int|
            0 <= i < text_runs(fonts, ops).len() ==> (#[trigger] text_runs(
                fonts,
                ops,
            )[i]).bbox().ordered(),
    decreases ops.len(),
{
    if ops.len() > 0 {
        lemma_text_runs_ordered(fonts, ops.drop_last());
        let before = text_pass(fonts, ops.drop_last());
        lemma_step_runs_ordered(before.0, fonts, ops.last());
        let step = text_step(before.0, fonts, ops.last());
        assert forall|i: int| 0 <= i < text_runs(fonts, ops).len() implies (#[trigger] text_runs(
            fonts,
            ops,
        )[i]).bbox().ordered() by {
            if i < before.1.len() {
                assert(text_runs(fonts, ops)[i] == before.1[i]);
                assert(before.1[i] == text_runs(fonts, ops.drop_last())[i]);
            } else {
                assert(text_runs(fonts, ops)[i] == step.1[i - before.1.len()]);
            }
        }
    }
}

/// After the start of a text object both matrices are the identity, whatever
/// the state was.
pub proof fn lemma_begin_text_resets(state: TextStateView, fonts: Seq<NamedFont>)
    ensures
        text_step(state, fonts, Op::BeginText).0.text_matrix == Matrix::identity(),
        text_step(state, fonts, Op::BeginText).0.text_line_matrix == Matrix::identity(),
{
}

/// Runs the text state over a content stream and gathers the runs of text
/// that it places.
pub fn collect_text_blocks(ops: &Vec<Op>, fonts: &Vec<NamedFont>) -> (blocks: Vec<TextBlock>)
    ensures
        blocks_view(blocks@) == text_runs(fonts@, ops@),
        forall|i: int| 0 <= i < blocks@.len() ==> (#[trigger] blocks@[i])@.bbox().ordered(),
{
    let mut state = TextState::default();
    let mut blocks: Vec<TextBlock> = Vec::new();
    let mut i: usize = 0;
    assert(blocks_view(blocks@) =~= Seq::<TextBlockView>::empty());
    while i < ops.len()
        invariant
            i <= ops@.len(),
            state@ == text_pass(fonts@, ops@.take(i as int)).0,
            blocks_view(blocks@) == text_pass(fonts@, ops@.take(i as int)).1,
        decreases ops@.len() - i,
    {
        proof {
            assert(ops@.take(i + 1).drop_last() =~= ops@.take(i as int));
            assert(ops@.take(i + 1).last() == ops@[i as int]);
        }
        let ghost before = blocks_view(blocks@);
        match &ops[i] {
            Op::BeginText => state.begin_text(),
            Op::SetTextMatrix { matrix } => state.set_text_matrix(*matrix),
            Op::MoveTextPosition { translation } => state.translate_line(
                translation.x,
                translation.y,
            ),
            Op::TextNewline => state.newline(),
            Op::TextFont { name, size } => state.set_font(name, *size),
            Op::CharSpacing { char_space } => state.set_char_spacing(*char_space),
            Op::WordSpacing { word_space } => state.set_word_spacing(*word_space),
            Op::TextScaling { horiz_scale } => state.set_horizontal_scale(*horiz_scale),
            Op::Leading { leading } => state.set_leading(*leading),
            Op::TextRise { rise } => state.set_text_rise(*rise),
            Op::TextDraw { text } => {
                handle_text_draw(&mut state, fonts, text, &mut blocks);
                proof {
                    let drawn = after_draw(
                        text_pass(fonts@, ops@.take(i as int)).0,
                        fonts@,
                        text@,
                    );
                    assert(with_run(before, drawn.1) =~= before + with_run(
                        Seq::<TextBlockView>::empty(),
                        drawn.1,
                    ));
                }
            },
            Op::TextDrawAdjusted { array } => {
                handle_text_adjusted(&mut state, fonts, array, &mut blocks);
            },
            _ => {},
        }
        proof {
            assert(before + Seq::<TextBlockView>::empty() =~= before);
        }
        i += 1;
    }
    proof {
        assert(ops@.take(i as int) =~= ops@);
        lemma_text_runs_ordered(fonts@, ops@);
        assert forall|j: int| 0 <= j < blocks@.len() implies (
        #[trigger] blocks@[j])@.bbox().ordered() by {
            assert(blocks_view(blocks@)[j] == blocks@[j]@);
            assert(text_runs(fonts@, ops@)[j].bbox().ordered());
        }
    }
    blocks
}

} // verus!
