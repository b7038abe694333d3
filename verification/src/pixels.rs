//! Pixels: the cell values stored by canvases, and the traits that canvases
//! use to read, write and convert their colors.

use vstd::prelude::*;

use crate::illusion::IllusionValue;
use crate::pixels::color::PixelColor;

pub mod canvas;
pub mod color;
pub mod maybe;
pub mod position;

verus! {

/// A color value a pixel can carry: either a concrete color or an optional
/// one. Conversions go through `Option<PixelColor>` as the common currency.
pub trait ColorValue: Sized + Copy {
    /// This color as an optional concrete color.
    spec fn spec_to_maybe(&self) -> Option<PixelColor>;

    /// The color of this type a given optional concrete color converts to,
    /// when it does.
    spec fn spec_from_maybe(m: Option<PixelColor>) -> Option<Self>;

    /// Converts to an optional concrete color.
    fn to_maybe(&self) -> (r: Option<PixelColor>)
        ensures
            r == self.spec_to_maybe(),
    ;

    /// Converts an optional concrete color into this type, when possible.
    fn from_maybe(m: Option<PixelColor>) -> (r: Option<Self>)
        ensures
            r == Self::spec_from_maybe(m),
    ;

    /// Executable equality of colors.
    fn eq_color(&self, other: &Self) -> (r: bool)
        ensures
            r == (*self == *other),
    ;

    /// The color cleared cells return to.
    spec fn spec_default_color() -> Self;

    /// The color cleared cells return to.
    fn default_color() -> (r: Self)
        ensures
            r == Self::spec_default_color(),
    ;
}

/// What any pixel value offers: a color, and the knowledge whether that color
/// takes part in drawing.
pub trait PixelInterface: IllusionValue<ModelType = Self> + Copy {
    type ColorType: ColorValue;

    /// The color carried by this pixel.
    spec fn spec_color(&self) -> Self::ColorType;

    /// Whether this pixel contributes a color when drawn.
    spec fn spec_has_color(&self) -> bool;

    /// This pixel with its color replaced.
    spec fn spec_with_color(&self, c: Self::ColorType) -> Self;

    /// A pixel value is its own model, colors behave as stated, and replacing
    /// a color yields a valid pixel carrying that color.
    proof fn pixel_laws(&self, c: Self::ColorType)
        ensures
            self.model() == *self,
            self.spec_with_color(c).spec_color() == c,
            self.spec_with_color(c).inv(),
            self.spec_with_color(c).spec_with_color(c) == self.spec_with_color(c),
            self.spec_has_color() == (self.spec_color().spec_to_maybe() is Some),
    ;

    /// Replacing a pixel's color twice keeps only the second color.
    proof fn color_replace_law(&self, c: Self::ColorType, c2: Self::ColorType)
        ensures
            self.spec_with_color(c).spec_with_color(c2) == self.spec_with_color(c2),
    ;

    /// The color carried by this pixel.
    fn color(&self) -> (r: &Self::ColorType)
        ensures
            *r == self.spec_color(),
    ;

    /// Whether this pixel contributes a color when drawn.
    fn has_color(&self) -> (r: bool)
        ensures
            r == self.spec_has_color(),
    ;
}

/// A pixel whose color can be replaced in place.
pub trait PixelMutInterface: PixelInterface {
    /// Replaces the color, returning the previous one.
    fn update_color(&mut self, color: Self::ColorType) -> (r: Self::ColorType)
        ensures
            *final(self) == old(self).spec_with_color(color),
            r == old(self).spec_color(),
    ;
}

/// A pixel that can be built from a bare color.
pub trait PixelInitializer: PixelInterface {
    /// A fresh pixel carrying the given color.
    fn new(color: Self::ColorType) -> (r: Self)
        ensures
            r == Self::default_value_spec().spec_with_color(color),
    ;

    /// The pixel every cell starts from.
    spec fn default_value_spec() -> Self;
}

/// An always-colored pixel: a plain RGB color, defaulting to white.
#[derive(Clone, Copy, PartialEq, Eq, Structural, Debug)]
pub struct Pixel {
    pub color: PixelColor,
}

impl IllusionValue for Pixel {
    type ModelType = Pixel;

    open spec fn model(&self) -> Pixel {
        *self
    }

    open spec fn inv(&self) -> bool {
        true
    }

    open spec fn default_model() -> Pixel {
        Pixel { color: PixelColor { r: 255, g: 255, b: 255 } }
    }

    fn eq_value(&self, other: &Self) -> (r: bool) {
        *self == *other
    }

    fn dup(&self) -> (r: Self) {
        *self
    }

    fn default_value() -> (r: Self) {
        Pixel { color: PixelColor { r: 255, g: 255, b: 255 } }
    }
}

impl PixelInterface for Pixel {
    type ColorType = PixelColor;

    open spec fn spec_color(&self) -> PixelColor {
        self.color
    }

    open spec fn spec_has_color(&self) -> bool {
        true
    }

    open spec fn spec_with_color(&self, c: PixelColor) -> Pixel {
        Pixel { color: c }
    }

    proof fn pixel_laws(&self, c: PixelColor) {
    }

    proof fn color_replace_law(&self, c: PixelColor, c2: PixelColor) {
    }

    fn color(&self) -> (r: &PixelColor) {
        &self.color
    }

    fn has_color(&self) -> (r: bool) {
        true
    }
}

impl PixelMutInterface for Pixel {
    fn update_color(&mut self, color: PixelColor) -> (r: PixelColor) {
        let prev = self.color;
        self.color = color;
        prev
    }
}

impl PixelInitializer for Pixel {
    fn new(color: PixelColor) -> (r: Self) {
        Pixel { color }
    }

    open spec fn default_value_spec() -> Self {
        Pixel { color: PixelColor { r: 255, g: 255, b: 255 } }
    }
}

} // verus!
