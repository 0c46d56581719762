//! The draw list of a frame: what is to be drawn, in pixels, for the
//! entities of a world.

use vstd::prelude::*;
use vstd::string::StringExecFns;
use hecs::World;
use crate::components::{Attributes, Colour};
use crate::store::{Model, entities, get_text, label_of, labels, listed, lists, rectangle_of, rectangles};
use crate::text::{score_label, score_text};

verus! {

/// A filled rectangle, in pixels, and the entity that it shows.
#[derive(Clone, Copy, Debug, PartialEq, Eq)]
pub struct Rectangle {
    pub entity: u64,
    pub x: u64,
    pub y: u64,
    pub width: u64,
    pub height: u64,
    pub colour: Colour,
}

/// A line of text, in pixels, and the entity that it shows.
#[derive(Clone, Debug, PartialEq, Eq)]
pub struct Label {
    pub entity: u64,
    pub text: String,
    pub x: u16,
    pub y: u16,
    pub font_size: u16,
    pub colour: Colour,
}

/// What a frame draws: the background first, then the rectangles, then the texts.
pub struct Frame {
    pub background: Colour,
    pub rectangles: Vec<Rectangle>,
    pub labels: Vec<Label>,
}

/// The side of a grid cell in pixels: the screen's extent divided by the
/// number of cells, rounded down.
pub fn cell_pixel_size(screen: u32, cells: u16) -> (size: u32)
    requires
        cells > 0,
    ensures
        size == screen / (cells as u32),
{
    screen / (cells as u32)
}

/// The rectangle that shows an entity with the given fill, position and
/// size: each grid coordinate times the cell's extent in pixels.
pub open spec fn drawn_rectangle(
    entity: u64,
    shape: (Colour, (u16, u16), (u16, u16)),
    cell_size: (u32, u32),
) -> Rectangle {
    Rectangle {
        entity,
        x: (shape.1.0 * cell_size.0) as u64,
        y: (shape.1.1 * cell_size.1) as u64,
        width: (shape.2.0 * cell_size.0) as u64,
        height: (shape.2.1 * cell_size.1) as u64,
        colour: shape.0,
    }
}

/// `drawn` holds one rectangle for each entity with a fill, a position and
/// a size, and no other.
pub open spec fn draws_rectangles(drawn: Seq<Rectangle>, m: Model, cell_size: (u32, u32)) -> bool {
    &&& forall|i: int|
        0 <= i < drawn.len() ==> m.dom().contains((#[trigger] drawn[i]).entity) && rectangle_of(
            m[drawn[i].entity],
        ).is_some() && drawn[i] == drawn_rectangle(
            drawn[i].entity,
            rectangle_of(m[drawn[i].entity]).unwrap(),
            cell_size,
        )
    &&& forall|i: int, j: int|
        0 <= i < j < drawn.len() ==> (#[trigger] drawn[i]).entity != (#[trigger] drawn[j]).entity
    &&& forall|h: u64| #[trigger]
        m.dom().contains(h) && rectangle_of(m[h]).is_some() ==> exists|i: int|
            0 <= i < drawn.len() && (#[trigger] drawn[i]).entity == h
}

/// `label` shows the text entity `a` under the handle `entity`.
pub open spec fn shows(label: Label, entity: u64, a: Attributes) -> bool {
    &&& label.entity == entity
    &&& a.text == Some(label.text@)
    &&& a.text_position == Some((label.x, label.y))
    &&& a.text_style == Some((label.font_size, label.colour))
}

/// `drawn` holds one label for each entity with a text, a text position and
/// a text style, and no other.
pub open spec fn draws_labels(drawn: Seq<Label>, m: Model) -> bool {
    &&& forall|i: int|
        0 <= i < drawn.len() ==> m.dom().contains((#[trigger] drawn[i]).entity) && shows(
            drawn[i],
            drawn[i].entity,
            m[drawn[i].entity],
        )
    &&& forall|i: int, j: int|
        0 <= i < j < drawn.len() ==> (#[trigger] drawn[i]).entity != (#[trigger] drawn[j]).entity
    &&& forall|h: u64| #[trigger]
        m.dom().contains(h) && label_of(m[h]).is_some() ==> exists|i: int|
            0 <= i < drawn.len() && (#[trigger] drawn[i]).entity == h
}

/// The draw list of a world: a black background, a rectangle for each
/// entity that has a fill, a position and a size, and a label for each
/// entity that has a text, a text position and a text style. The world
/// stays as it is.
pub fn render(world: &mut World, cell_size: (u32, u32)) -> (frame: Frame)
    ensures
        entities(*final(world)) == entities(*old(world)),
        frame.background == Colour::Black,
        draws_rectangles(frame.rectangles@, entities(*old(world)), cell_size),
        draws_labels(frame.labels@, entities(*old(world))),
{
    let ghost m = entities(*world);
    let shapes = rectangles(world);
    let mut drawn: Vec<Rectangle> = Vec::new();
    let mut i: usize = 0;
    while i < shapes.len()
        invariant
            0 <= i <= shapes.len(),
            drawn.len() == i,
            forall|k: int|
                0 <= k < i ==> #[trigger] drawn@[k] == drawn_rectangle(
                    shapes@[k].0,
                    shapes@[k].1,
                    cell_size,
                ),
        decreases shapes.len() - i,
    {
        let (entity, shape) = shapes[i];
        let (colour, at, size) = shape;
        assert((at.0 as u64) * (cell_size.0 as u64) <= 0xffff * 0xffff_ffff) by (nonlinear_arith)
            requires
                at.0 <= 0xffff,
                cell_size.0 <= 0xffff_ffff,
        ;
        assert((at.1 as u64) * (cell_size.1 as u64) <= 0xffff * 0xffff_ffff) by (nonlinear_arith)
            requires
                at.1 <= 0xffff,
                cell_size.1 <= 0xffff_ffff,
        ;
        assert((size.0 as u64) * (cell_size.0 as u64) <= 0xffff * 0xffff_ffff) by (nonlinear_arith)
            requires
                size.0 <= 0xffff,
                cell_size.0 <= 0xffff_ffff,
        ;
        assert((size.1 as u64) * (cell_size.1 as u64) <= 0xffff * 0xffff_ffff) by (nonlinear_arith)
            requires
                size.1 <= 0xffff,
                cell_size.1 <= 0xffff_ffff,
        ;
        drawn.push(
            Rectangle {
                entity,
                x: at.0 as u64 * cell_size.0 as u64,
                y: at.1 as u64 * cell_size.1 as u64,
                width: size.0 as u64 * cell_size.0 as u64,
                height: size.1 as u64 * cell_size.1 as u64,
                colour,
            },
        );
        i += 1;
    }
    proof {
        assert forall|h: u64| #[trigger] m.dom().contains(h) && rectangle_of(m[h]).is_some() implies exists|
            k: int,
        |
            0 <= k < drawn@.len() && (#[trigger] drawn@[k]).entity == h by {
            assert(listed(shapes@, shapes@.len() as int, h));
            let k = choose|k: int| 0 <= k < shapes@.len() && (#[trigger] shapes@[k]).0 == h;
            assert(drawn@[k].entity == h);
        }
        assert(draws_rectangles(drawn@, m, cell_size));
    }
    let styles = labels(world);
    let mut texts: Vec<Label> = Vec::new();
    let mut j: usize = 0;
    while j < styles.len()
        invariant
            0 <= j <= styles.len(),
            texts.len() == j,
            entities(*world) == m,
            lists(styles@, m, |a: Attributes| label_of(a)),
            forall|k: int|
                0 <= k < j ==> shows(#[trigger] texts@[k], styles@[k].0, m[styles@[k].0]),
        decreases styles.len() - j,
    {
        let (entity, placing) = styles[j];
        let (style, at) = placing;
        assert(m.dom().contains(styles@[j as int].0));
        let text = get_text(world, entity).unwrap();
        texts.push(Label { entity, text, x: at.0, y: at.1, font_size: style.0, colour: style.1 });
        j += 1;
    }
    proof {
        assert forall|h: u64| #[trigger] m.dom().contains(h) && label_of(m[h]).is_some() implies exists|
            k: int,
        |
            0 <= k < texts@.len() && (#[trigger] texts@[k]).entity == h by {
            assert(listed(styles@, styles@.len() as int, h));
            let k = choose|k: int| 0 <= k < styles@.len() && (#[trigger] styles@[k]).0 == h;
            assert(texts@[k].entity == h);
        }
        assert(draws_labels(texts@, m));
    }
    Frame { background: Colour::Black, rectangles: drawn, labels: texts }
}

/// The three lines of the game-over screen, from the top: the verdict, the
/// keys to go on or to leave, and the score.
pub fn game_over_lines(score: u64) -> (lines: Vec<String>)
    ensures
        lines@.len() == 3,
        lines@[0]@ == "Game Over!"@,
        lines@[1]@ == "Press [SPACE] to continue | [ENTER] to quit..."@,
        lines@[2]@ == score_label(score),
{
    let mut lines: Vec<String> = Vec::new();
    lines.push(String::from_str("Game Over!"));
    lines.push(String::from_str("Press [SPACE] to continue | [ENTER] to quit..."));
    lines.push(score_text(score));
    lines
}

} // verus!
