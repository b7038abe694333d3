//! An alien monster template, built from a mirrored half.

use vstd::prelude::*;

use super::Template;
use crate::pixels::canvas::pen::{Pen, PenMove};
use crate::pixels::canvas::{
    PixelCanvasMutInterface, SharedMutPixelCanvasExt, SharedPixelCanvasExt,
};
use crate::pixels::color::colors;
use crate::pixels::color::PixelColor;
use crate::pixels::maybe::MaybePixel;
use crate::pixels::position::StrictPositions;
use crate::pixels::ColorValue;

verus! {

/// The right half of an alien monster on a 17 by 10 canvas.
pub struct HalfAlienMonster;

impl HalfAlienMonster {
    /// Flood fills with the monster's body color when the seed is not
    /// already of that color.
    fn fill_body_at<C: PixelCanvasMutInterface<17, 10, MaybePixel>, T: crate::pixels::position::IntoPixelStrictPosition<17, 10> + Copy>(
        canvas: &mut C,
        color: PixelColor,
        seed: T,
    )
        requires
            old(canvas).spec_table().wf(),
            seed.into_wf(),
        ensures
            final(canvas).spec_table().wf(),
            final(canvas).spec_table().defv() == old(canvas).spec_table().defv(),
    {
        let current = canvas.color_at(seed);
        if !current.eq_color(&Some(color)) {
            canvas.fill_inside(Some(color), seed);
        }
    }
}

impl Template<17, 10> for HalfAlienMonster {
    fn define<C: PixelCanvasMutInterface<17, 10, MaybePixel>>(&self, canvas: &mut C) {
        let mut pen = Pen::new(colors::black()).attach(StrictPositions::BottomLeft);
        pen.up(4, canvas);
        pen.start(canvas);
        pen.right(1, canvas);
        pen.down(2, canvas);
        pen.right(5, canvas);
        pen.down(2, canvas);
        pen.left(2, canvas);
        pen.up(4, canvas);
        pen.right(2, canvas);
        pen.branch(&vec![PenMove::Up(2)], canvas);
        pen.right(1, canvas);
        pen.up(2, canvas);
        pen.right(1, canvas);
        pen.up(1, canvas);
        pen.right(1, canvas);
        pen.up(5, canvas);
        pen.left(2, canvas);
        pen.branch(&vec![PenMove::Down(4)], canvas);
        pen.up(2, canvas);
        pen.left(1, canvas);
        pen.branch(
            &vec![
                PenMove::Up(2),
                PenMove::Left(2),
                PenMove::Down(4),
                PenMove::Right(1),
                PenMove::Down(1),
                PenMove::Right(1),
                PenMove::Down(3),
            ],
            canvas,
        );
        pen.left(3, canvas);
        pen.branch(&vec![PenMove::Down(1)], canvas);
        pen.up(1, canvas);
        pen.left(2, canvas);
        pen.down(2, canvas);
        pen.left(1, canvas);
        pen.stop();
        pen.down(4, canvas);
        pen.right(2, canvas);
        pen.start(canvas);
        pen.down(2, canvas);
        pen.right(1, canvas);
        pen.up(2, canvas);

        let color = PixelColor::from_red(106).blue(127);

        Self::fill_body_at(canvas, color, StrictPositions::LeftCenter);
        let _ = canvas.update_color_at((1usize, 5usize), Some(color));
        Self::fill_body_at(canvas, color, (3usize, 5usize));
        Self::fill_body_at(canvas, color, (5usize, 8usize));
        let _ = canvas.update_color_at((15usize, 5usize), Some(color));
    }
}

/// An alien monster on a 17 by 20 canvas: the half and its mirror image.
pub struct AlienMonster;

impl Template<17, 20> for AlienMonster {
    fn define<C: PixelCanvasMutInterface<17, 20, MaybePixel>>(&self, canvas: &mut C) {
        canvas.draw(StrictPositions::TopLeft, HalfAlienMonster.create().flipped_y());
        canvas.draw((0usize, 10usize), HalfAlienMonster.create());
    }
}

} // verus!
