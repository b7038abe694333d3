//! A pixel that may carry no color at all: such a pixel leaves the target
//! untouched when drawn onto another canvas.

use vstd::prelude::*;

use crate::illusion::IllusionValue;
use super::color::PixelColor;
use super::{ColorValue, PixelInitializer, PixelInterface, PixelMutInterface};

verus! {

/// A pixel with an optional color; the default carries none.
#[derive(Clone, Copy, PartialEq, Eq, Structural, Debug)]
pub struct MaybePixel {
    pub color: Option<PixelColor>,
}

impl IllusionValue for MaybePixel {
    type ModelType = MaybePixel;

    open spec fn model(&self) -> MaybePixel {
        *self
    }

    open spec fn inv(&self) -> bool {
        true
    }

    open spec fn default_model() -> MaybePixel {
        MaybePixel { color: None }
    }

    fn eq_value(&self, other: &Self) -> (r: bool) {
        match (self.color, other.color) {
            (Some(a), Some(b)) => a == b,
            (None, None) => true,
            _ => false,
        }
    }

    fn dup(&self) -> (r: Self) {
        *self
    }

    fn default_value() -> (r: Self) {
        MaybePixel { color: None }
    }
}

impl PixelInterface for MaybePixel {
    type ColorType = Option<PixelColor>;

    open spec fn spec_color(&self) -> Option<PixelColor> {
        self.color
    }

    open spec fn spec_has_color(&self) -> bool {
        self.color is Some
    }

    open spec fn spec_with_color(&self, c: Option<PixelColor>) -> MaybePixel {
        MaybePixel { color: c }
    }

    proof fn pixel_laws(&self, c: Option<PixelColor>) {
        assert(self.spec_color().spec_to_maybe() == self.color);
    }

    proof fn color_replace_law(&self, c: Option<PixelColor>, c2: Option<PixelColor>) {
    }

    fn color(&self) -> (r: &Option<PixelColor>) {
        &self.color
    }

    fn has_color(&self) -> (r: bool) {
        self.color.is_some()
    }
}

impl PixelMutInterface for MaybePixel {
    fn update_color(&mut self, color: Option<PixelColor>) -> (r: Option<PixelColor>) {
        let prev = self.color;
        self.color = color;
        prev
    }
}

impl PixelInitializer for MaybePixel {
    fn new(color: Option<PixelColor>) -> (r: Self) {
        MaybePixel { color }
    }

    open spec fn default_value_spec() -> Self {
        MaybePixel { color: None }
    }
}

} // verus!
