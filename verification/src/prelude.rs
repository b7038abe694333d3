//! The items most programs want in scope: canvases, colors, positions and
//! the traits that extend them.

pub use crate::pixels::canvas::drawable::Drawable;
pub use crate::pixels::canvas::pen::{PenMove, PixelPen};
pub use crate::pixels::canvas::PixelCanvas;
pub use crate::pixels::canvas::PixelCanvasExt;
pub use crate::pixels::canvas::PixelCanvasMutExt;
pub use crate::pixels::canvas::SharedMutPixelCanvasExt;
pub use crate::pixels::canvas::SharedPixelCanvasExt;
pub use crate::pixels::color::colors;
pub use crate::pixels::color::PixelColor;
pub use crate::pixels::maybe::MaybePixel;
pub use crate::pixels::position::{
    Direction, IntoPixelStrictPosition, PixelPosition, PixelPositionInterface,
    PixelStrictPosition, PixelStrictPositionInterface, StrictPositions,
};
pub use crate::pixels::canvas::MaybePixelCanvas;
pub use crate::pixels::{Pixel, PixelInterface, PixelMutInterface};
