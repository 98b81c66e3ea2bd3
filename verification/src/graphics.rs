//! The graphics state of a content stream and the images that it places.

use crate::error::{ExtractError, ExtractErrorView};
use crate::fixed::Fixed;
use crate::geometry::{composed, concat_matrix, unit_square_bounds, unit_square_hull, BBox, Matrix};
use crate::imaging::{extract_image, extracted, ImageResult, ImageResultView, ImageSource};
use crate::ops::Op;
use crate::strings::{decimal, push_decimal};
use vstd::prelude::*;
use vstd::string::StringExecFns;

verus! {

/// An external object of a page, as far as it matters here.
#[derive(Debug)]
pub enum XObject {
    Image(ImageSource),
    /// A form, or anything else that is no image.
    Other,
}

/// An external object under the name by which the content refers to it, or
/// why it could not be resolved.
#[derive(Debug)]
pub struct NamedXObject {
    pub name: String,
    pub object: Result<XObject, String>,
}

/// An image as it stands on the page: its name among the page's resources,
/// the box it fills and its record.
#[derive(Debug)]
pub struct PositionedImage {
    pub name: String,
    pub x0: Fixed,
    pub y0: Fixed,
    pub x1: Fixed,
    pub y1: Fixed,
    pub image: ImageResult,
}

/// A placed image with its name as a sequence of characters.
pub struct PositionedImageView {
    pub name: Seq<char>,
    pub x0: Fixed,
    pub y0: Fixed,
    pub x1: Fixed,
    pub y1: Fixed,
    pub image: ImageResultView,
}

impl View for PositionedImage {
    type V = PositionedImageView;

    open spec fn view(&self) -> PositionedImageView {
        PositionedImageView {
            name: self.name@,
            x0: self.x0,
            y0: self.y0,
            x1: self.x1,
            y1: self.y1,
            image: self.image@,
        }
    }
}

impl PositionedImageView {
    /// The box that the image fills.
    pub open spec fn bbox(self) -> BBox {
        BBox { x0: self.x0, y0: self.y0, x1: self.x1, y1: self.y1 }
    }
}

/// The images of a list, each as its view.
pub open spec fn images_view(images: Seq<PositionedImage>) -> Seq<PositionedImageView> {
    images.map_values(|i: PositionedImage| i@)
}

/// The graphics state: the current transformation, the transformations that
/// were saved, and the number of inline images met so far.
pub struct GraphicsState {
    pub ctm: Matrix,
    pub stack: Seq<Matrix>,
    pub inline_count: nat,
}

impl GraphicsState {
    /// The state in which a content stream starts.
    pub open spec fn initial() -> GraphicsState {
        GraphicsState { ctm: Matrix::identity(), stack: Seq::<Matrix>::empty(), inline_count: 0 }
    }

    /// The state after the current transformation was saved.
    pub open spec fn saved(self) -> GraphicsState {
        GraphicsState { stack: self.stack.push(self.ctm), ..self }
    }

    /// The state after the last saved transformation was restored. Where none
    /// is saved, the transformation becomes the identity.
    pub open spec fn restored(self) -> GraphicsState {
        if self.stack.len() > 0 {
            GraphicsState { ctm: self.stack.last(), stack: self.stack.drop_last(), ..self }
        } else {
            GraphicsState { ctm: Matrix::identity(), ..self }
        }
    }

    /// The state after `matrix` was concatenated onto the transformation.
    pub open spec fn transformed_by(self, matrix: Matrix) -> GraphicsState {
        GraphicsState { ctm: composed(self.ctm, matrix), ..self }
    }
}

/// The name of the inline image of that number.
pub open spec fn inline_name(number: nat) -> Seq<char> {
    "inline_"@ + decimal(number)
}

/// The position of the first object of that name.
pub open spec fn xobject_position(objects: Seq<NamedXObject>, name: Seq<char>) -> Option<int>
    decreases objects.len(),
{
    if objects.len() == 0 {
        None
    } else {
        match xobject_position(objects.drop_last(), name) {
            Some(i) => Some(i),
            None => if objects.last().name@ == name {
                Some(objects.len() - 1)
            } else {
                None
            },
        }
    }
}

/// The position that `xobject_position` gives is the least with that name.
pub proof fn lemma_xobject_position(objects: Seq<NamedXObject>, name: Seq<char>)
    ensures
        match xobject_position(objects, name) {
            Some(i) => 0 <= i < objects.len() && objects[i].name@ == name && forall|j: int|
                0 <= j < i ==> (#[trigger] objects[j]).name@ != name,
            None => forall|j: int|
                0 <= j < objects.len() ==> (#[trigger] objects[j]).name@ != name,
        },
    decreases objects.len(),
{
    if objects.len() > 0 {
        let front = objects.drop_last();
        lemma_xobject_position(front, name);
        match xobject_position(front, name) {
            Some(i) => {
                assert(front[i] == objects[i]);
                assert forall|j: int| 0 <= j < i implies (#[trigger] objects[j]).name@ != name by {
                    assert(front[j] == objects[j]);
                }
            },
            None => {
                assert forall|j: int| 0 <= j < objects.len() - 1 implies (
                #[trigger] objects[j]).name@ != name by {
                    assert(front[j] == objects[j]);
                }
            },
        }
    }
}

/// The image that a record makes under a transformation: it fills the image
/// of the unit square.
pub open spec fn placed_image(name: Seq<char>, ctm: Matrix, image: ImageResultView) -> PositionedImageView {
    let bounds = unit_square_hull(ctm);
    PositionedImageView { name, x0: bounds.x0, y0: bounds.y0, x1: bounds.x1, y1: bounds.y1, image }
}

/// What drawing the object called `name` places. A name that the page does
/// not know, and an object that is no image, place nothing. An object that
/// cannot be resolved, and an image that cannot be extracted, fail the pass.
pub open spec fn drawn_object(ctm: Matrix, objects: Option<Seq<NamedXObject>>, name: Seq<char>) -> Result<
    Option<PositionedImageView>,
    ExtractErrorView,
> {
    match objects {
        None => Ok(None),
        Some(table) => match xobject_position(table, name) {
            None => Ok(None),
            Some(i) => match table[i].object {
                Err(words) => Err(ExtractErrorView::PdfStructure(words@)),
                Ok(XObject::Other) => Ok(None),
                Ok(XObject::Image(source)) => match extracted(source) {
                    Err(e) => Err(e),
                    Ok(image) => Ok(Some(placed_image(name, ctm, image))),
                },
            },
        },
    }
}

/// What one operator does to the graphics state, and the image it places.
pub open spec fn graphics_step(state: GraphicsState, objects: Option<Seq<NamedXObject>>, op: Op) -> Result<
    (GraphicsState, Option<PositionedImageView>),
    ExtractErrorView,
> {
    match op {
        Op::Save => Ok((state.saved(), None)),
        Op::Restore => Ok((state.restored(), None)),
        Op::Transform { matrix } => Ok((state.transformed_by(matrix), None)),
        Op::XObject { name } => match drawn_object(state.ctm, objects, name@) {
            Err(e) => Err(e),
            Ok(image) => Ok((state, image)),
        },
        Op::InlineImage { image } => match extracted(image) {
            Err(e) => Err(e),
            Ok(record) => Ok(
                (
                    GraphicsState { inline_count: state.inline_count + 1, ..state },
                    Some(placed_image(inline_name(state.inline_count + 1), state.ctm, record)),
                ),
            ),
        },
        _ => Ok((state, None)),
    }
}

/// The images with one more, if there is one.
pub open spec fn with_image(images: Seq<PositionedImageView>, image: Option<PositionedImageView>) -> Seq<
    PositionedImageView,
> {
    match image {
        Some(i) => images.push(i),
        None => images,
    }
}

/// What a sequence of operators does, starting from the initial graphics
/// state: the state afterwards and the images that were placed, in their
/// order, or the first failure.
pub open spec fn graphics_pass(objects: Option<Seq<NamedXObject>>, ops: Seq<Op>) -> Result<
    (GraphicsState, Seq<PositionedImageView>),
    ExtractErrorView,
>
    decreases ops.len(),
{
    if ops.len() == 0 {
        Ok((GraphicsState::initial(), Seq::<PositionedImageView>::empty()))
    } else {
        match graphics_pass(objects, ops.drop_last()) {
            Err(e) => Err(e),
            Ok(before) => match graphics_step(before.0, objects, ops.last()) {
                Err(e) => Err(e),
                Ok(last) => Ok((last.0, with_image(before.1, last.1))),
            },
        }
    }
}

/// The images of a content stream, in the order of its operators, or why the
/// pass failed.
pub open spec fn positioned_images(objects: Option<Seq<NamedXObject>>, ops: Seq<Op>) -> Result<
    Seq<PositionedImageView>,
    ExtractErrorView,
> {
    match graphics_pass(objects, ops) {
        Ok(pass) => Ok(pass.1),
        Err(e) => Err(e),
    }
}

/// Restoring where nothing is saved gives the identity and leaves nothing
/// saved, so that doing it again changes nothing.
pub proof fn lemma_restore_underflow(state: GraphicsState)
    requires
        state.stack.len() == 0,
    ensures
        state.restored().ctm == Matrix::identity(),
        state.restored().stack.len() == 0,
        state.restored().restored() == state.restored(),
{
}

/// Restoring after saving gives back the transformation that was saved.
pub proof fn lemma_save_restore(state: GraphicsState, matrix: Matrix)
    ensures
        state.saved().transformed_by(matrix).restored() == state,
{
    assert(state.stack.push(state.ctm).drop_last() =~= state.stack);
}

/// The tables of an optional list of objects.
pub open spec fn objects_view(objects: Option<&Vec<NamedXObject>>) -> Option<Seq<NamedXObject>> {
    match objects {
        Some(table) => Some(table@),
        None => None,
    }
}

/// Finds the object that the content calls `name`.
fn find_xobject<'a>(objects: &'a Vec<NamedXObject>, name: &String) -> (r: Option<&'a NamedXObject>)
    ensures
        match r {
            Some(entry) => xobject_position(objects@, name@) matches Some(i) && objects@[i]
                == *entry,
            None => xobject_position(objects@, name@) is None,
        },
{
    let mut i: usize = 0;
    while i < objects.len()
        invariant
            i <= objects@.len(),
            forall|j: int| 0 <= j < i ==> (#[trigger] objects@[j]).name@ != name@,
        decreases objects@.len() - i,
    {
        if objects[i].name == *name {
            proof {
                lemma_xobject_position(objects@, name@);
            }
            return Some(&objects[i]);
        }
        i += 1;
    }
    proof {
        lemma_xobject_position(objects@, name@);
    }
    None
}

/// Places an image record under the current transformation.
fn place_image(name: String, ctm: &Matrix, image: ImageResult) -> (placed: PositionedImage)
    ensures
        placed@ == placed_image(name@, *ctm, image@),
        placed@.bbox().ordered(),
{
    let bounds = unit_square_bounds(ctm);
    PositionedImage { name, x0: bounds.x0, y0: bounds.y0, x1: bounds.x1, y1: bounds.y1, image }
}

/// Runs the graphics state over a content stream and gathers the images that
/// it places. `objects` are the external objects of the page, if it has
/// resources at all.
pub fn collect_positioned_images(ops: &Vec<Op>, objects: Option<&Vec<NamedXObject>>) -> (r: Result<
    Vec<PositionedImage>,
    ExtractError,
>)
    ensures
        match r {
            Ok(images) => positioned_images(objects_view(objects), ops@) == Ok::<
                Seq<PositionedImageView>,
                ExtractErrorView,
            >(images_view(images@)),
            Err(e) => positioned_images(objects_view(objects), ops@) == Err::<
                Seq<PositionedImageView>,
                ExtractErrorView,
            >(e@),
        },
        r matches Ok(images) ==> forall|i: int|
            0 <= i < images@.len() ==> (#[trigger] images@[i])@.bbox().ordered(),
{
    let mut ctm = Matrix::identity();
    let mut stack: Vec<Matrix> = Vec::new();
    let mut images: Vec<PositionedImage> = Vec::new();
    let mut inline_index: usize = 0;
    let mut i: usize = 0;
    assert(images_view(images@) =~= Seq::<PositionedImageView>::empty());
    while i < ops.len()
        invariant
            i <= ops@.len(),
            inline_index <= i,
            graphics_pass(objects_view(objects), ops@.take(i as int)) == Ok::<
                (GraphicsState, Seq<PositionedImageView>),
                ExtractErrorView,
            >(
                (
                    GraphicsState { ctm, stack: stack@, inline_count: inline_index as nat },
                    images_view(images@),
                ),
            ),
            forall|j: int| 0 <= j < images@.len() ==> (#[trigger] images@[j])@.bbox().ordered(),
        decreases ops@.len() - i,
    {
        proof {
            assert(ops@.take(i + 1).drop_last() =~= ops@.take(i as int));
            assert(ops@.take(i + 1).last() == ops@[i as int]);
        }
        let ghost before = images_view(images@);
        let ghost state = GraphicsState { ctm, stack: stack@, inline_count: inline_index as nat };
        match &ops[i] {
            Op::Save => {
                stack.push(ctm);
            },
            Op::Restore => {
                ctm =
                match stack.pop() {
                    Some(saved) => saved,
                    None => Matrix::identity(),
                };
                assert(stack@ =~= state.restored().stack);
            },
            Op::Transform { matrix } => {
                ctm = concat_matrix(&ctm, matrix);
            },
            Op::XObject { name } => {
                if let Some(table) = objects {
                    if let Some(entry) = find_xobject(table, name) {
                        match &entry.object {
                            Err(words) => {
                                proof {
                                    lemma_failed_step(
                                        objects_view(objects),
                                        ops@.take(i + 1),
                                        ops@,
                                    );
                                }
                                return Err(ExtractError::PdfStructure(words.clone()));
                            },
                            Ok(XObject::Other) => {},
                            Ok(XObject::Image(source)) => {
                                match extract_image(source) {
                                    Err(e) => {
                                        proof {
                                            lemma_failed_step(
                                                objects_view(objects),
                                                ops@.take(i + 1),
                                                ops@,
                                            );
                                        }
                                        return Err(e);
                                    },
                                    Ok(record) => {
                                        let placed = place_image(name.clone(), &ctm, record);
                                        proof {
                                            assert(images_view(images@.push(placed)) =~= before.push(
                                                placed@,
                                            ));
                                        }
                                        images.push(placed);
                                    },
                                }
                            },
                        }
                    }
                }
            },
            Op::InlineImage { image } => {
                match extract_image(image) {
                    Err(e) => {
                        proof {
                            lemma_failed_step(objects_view(objects), ops@.take(i + 1), ops@);
                        }
                        return Err(e);
                    },
                    Ok(record) => {
                        inline_index += 1;
                        let mut name = String::from_str("inline_");
                        push_decimal(&mut name, inline_index);
                        let placed = place_image(name, &ctm, record);
                        proof {
                            assert(images_view(images@.push(placed)) =~= before.push(placed@));
                        }
                        images.push(placed);
                    },
                }
            },
            _ => {},
        }
        i += 1;
    }
    assert(ops@.take(i as int) =~= ops@);
    Ok(images)
}

/// A pass that has failed on its first operators fails in the same way on
/// all of them.
proof fn lemma_failed_step(objects: Option<Seq<NamedXObject>>, front: Seq<Op>, ops: Seq<Op>)
    requires
        front.len() <= ops.len(),
        front == ops.take(front.len() as int),
        graphics_pass(objects, front) is Err,
    ensures
        graphics_pass(objects, ops) == graphics_pass(objects, front),
    decreases ops.len(),
{
    if front.len() == ops.len() {
        assert(front =~= ops);
    } else {
        let shorter = ops.drop_last();
        assert(front =~= shorter.take(front.len() as int));
        lemma_failed_step(objects, front, shorter);
    }
}

} // verus!
