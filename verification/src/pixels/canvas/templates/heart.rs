//! A heart template, built from a mirrored half.

use vstd::prelude::*;

use super::Template;
use crate::pixels::canvas::pen::{Pen, PenMove};
use crate::pixels::canvas::{
    PixelCanvasMutInterface, SharedMutPixelCanvasExt, SharedPixelCanvasExt,
};
use crate::pixels::color::colors;
use crate::pixels::color::PixelColor;
use crate::pixels::maybe::MaybePixel;
use crate::pixels::position::StrictPositions;
use crate::pixels::ColorValue;

verus! {

/// The right half of a heart on a 6 by 4 canvas.
pub struct HalfHeart;

impl Template<6, 4> for HalfHeart {
    fn define<C: PixelCanvasMutInterface<6, 4, MaybePixel>>(&self, canvas: &mut C) {
        let mut pen = Pen::new(colors::black()).attach(StrictPositions::TopLeft);
        pen.right(1, canvas);
        pen.start(canvas);
        pen.branch(&vec![PenMove::Right(1), PenMove::DownRight(1)], canvas);
        pen.branch(&vec![PenMove::DownLeft(1), PenMove::Down(1), PenMove::DownRight(3)], canvas);

        let fill = PixelColor::new(196, 0, 0);
        let current = canvas.color_at(StrictPositions::Center);
        if !current.eq_color(&Some(fill)) {
            canvas.fill_inside(Some(fill), StrictPositions::Center);
        }
    }
}

/// A whole heart on a 6 by 7 canvas: the half and its mirror image.
pub struct Heart;

impl Template<6, 7> for Heart {
    fn define<C: PixelCanvasMutInterface<6, 7, MaybePixel>>(&self, canvas: &mut C) {
        canvas.draw(StrictPositions::TopLeft, HalfHeart.create());
        canvas.draw(StrictPositions::TopCenter, HalfHeart.create().flipped_x());
    }
}

} // verus!
