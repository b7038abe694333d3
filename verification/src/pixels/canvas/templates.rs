//! Reusable drawings: shapes defined once and stamped onto any canvas of
//! optional pixels.

use vstd::prelude::*;

use super::drawable::drawn_cell;
use super::{PixelCanvas, PixelCanvasMutInterface, SharedMutPixelCanvasExt};
use crate::pixels::PixelInterface;
use crate::pixels::color::PixelColor;
use crate::pixels::maybe::MaybePixel;

pub mod alien_monster;
pub mod heart;

verus! {

/// A shape that knows how to draw itself on a canvas of optional pixels.
pub trait Template<const H: usize, const W: usize>: Sized {
    /// Draws the shape on `canvas`.
    fn define<C: PixelCanvasMutInterface<H, W, MaybePixel>>(&self, canvas: &mut C)
        requires
            old(canvas).spec_table().wf(),
        ensures
            final(canvas).spec_table().wf(),
            final(canvas).spec_table().defv() == old(canvas).spec_table().defv(),
    ;

    /// A fresh transparent canvas with the shape drawn on it.
    fn create(&self) -> (r: PixelCanvas<H, W, MaybePixel>)
        ensures
            r.wf(),
            r.defv() == (MaybePixel { color: None }),
    {
        let mut canvas = PixelCanvas::<H, W, MaybePixel>::default();
        self.define(&mut canvas);
        canvas
    }

    /// Draws the shape on an existing canvas.
    fn apply_existing<C: PixelCanvasMutInterface<H, W, MaybePixel>>(&self, canvas: &mut C)
        requires
            old(canvas).spec_table().wf(),
        ensures
            final(canvas).spec_table().wf(),
            final(canvas).spec_table().defv() == old(canvas).spec_table().defv(),
    {
        self.define(canvas)
    }
}

/// A vertical line of height `H`, one cell wide.
pub fn vertical_line<const H: usize>(color: PixelColor) -> (r: PixelCanvas<H, 1, MaybePixel>)
    ensures
        r.wf(),
        r.defv() == (MaybePixel { color: None }),
        forall|i: int, j: int|
            0 <= i < H && j == 0 ==> r.cell(i, j) == (MaybePixel { color: Some(color) }),
{
    PixelCanvas::<H, 1, MaybePixel>::from_fill_color(Some(color))
}

/// A horizontal line of width `W`, one cell tall.
pub fn horizontal_line<const W: usize>(color: PixelColor) -> (r: PixelCanvas<1, W, MaybePixel>)
    ensures
        r.wf(),
        r.defv() == (MaybePixel { color: None }),
        forall|i: int, j: int|
            i == 0 && 0 <= j < W ==> r.cell(i, j) == (MaybePixel { color: Some(color) }),
{
    PixelCanvas::<1, W, MaybePixel>::from_fill_color(Some(color))
}

/// A bordered `H` by `W` rectangle: colored border, transparent inside.
#[verifier::rlimit(100)]
pub fn rectangle<const H: usize, const W: usize>(color: PixelColor) -> (r: PixelCanvas<
    H,
    W,
    MaybePixel,
>)
    requires
        H >= 1,
        W >= 1,
    ensures
        r.wf(),
        r.defv() == (MaybePixel { color: None }),
        forall|i: int, j: int|
            0 <= i < H && 0 <= j < W ==> r.cell(i, j) == if i == 0 || i == H as int - 1 || j == 0
                || j == W as int - 1 {
                MaybePixel { color: Some(color) }
            } else {
                MaybePixel { color: None }
            },
{
    let mut table = PixelCanvas::<H, W, MaybePixel>::default();

    let ghost t0 = table;
    let left_line = vertical_line::<H>(color);
    table.draw((0usize, 0usize), left_line);
    let ghost t1 = table;
    let right_line = vertical_line::<H>(color);
    table.draw((0usize, W - 1), right_line);
    let ghost t2 = table;
    let top_line = horizontal_line::<W>(color);
    table.draw((0usize, 0usize), top_line);
    let ghost t3 = table;
    let bottom_line = horizontal_line::<W>(color);
    table.draw((H - 1, 0usize), bottom_line);

    proof {
        assert forall|i: int, j: int| 0 <= i < H && 0 <= j < W implies table.cell(i, j) == (if i
            == 0 || i == H as int - 1 || j == 0 || j == W as int - 1 {
            MaybePixel { color: Some(color) }
        } else {
            MaybePixel { color: None }
        }) by {
            assert(left_line.cell(i, 0) == (MaybePixel { color: Some(color) }));
            assert(right_line.cell(i, 0) == (MaybePixel { color: Some(color) }));
            assert(top_line.cell(0, j) == (MaybePixel { color: Some(color) }));
            assert(bottom_line.cell(0, j) == (MaybePixel { color: Some(color) }));
            assert(t1.cell(i, j) == drawn_cell(left_line.table, 0, 0, t0.cell(i, j), i, j));
            assert(t2.cell(i, j) == drawn_cell(
                right_line.table,
                0,
                W as int - 1,
                t1.cell(i, j),
                i,
                j,
            ));
            assert(t3.cell(i, j) == drawn_cell(top_line.table, 0, 0, t2.cell(i, j), i, j));
            assert(table.cell(i, j) == drawn_cell(
                bottom_line.table,
                H as int - 1,
                0,
                t3.cell(i, j),
                i,
                j,
            ));
        }
    }
    table
}

/// A bordered square of side `H`.
pub fn square<const H: usize>(color: PixelColor) -> (r: PixelCanvas<H, H, MaybePixel>)
    requires
        H >= 1,
    ensures
        r.wf(),
        r.defv() == (MaybePixel { color: None }),
        forall|i: int, j: int|
            0 <= i < H && 0 <= j < H ==> r.cell(i, j) == if i == 0 || i == H as int - 1 || j == 0
                || j == H as int - 1 {
                MaybePixel { color: Some(color) }
            } else {
                MaybePixel { color: None }
            },
{
    rectangle::<H, H>(color)
}

} // verus!
