//! Simple RGB colors for pixels. The default color is white, not black.

use vstd::prelude::*;

use super::ColorValue;

pub mod colors;

verus! {

/// Simple RGB color of a pixel; the default value is white.
#[derive(Clone, Copy, PartialEq, Eq, Structural, Debug)]
pub struct PixelColor {
    pub r: u8,
    pub g: u8,
    pub b: u8,
}

impl PixelColor {
    /// A color from its three channels.
    pub fn new(r: u8, g: u8, b: u8) -> (c: Self)
        ensures
            c == (PixelColor { r, g, b }),
    {
        PixelColor { r, g, b }
    }

    /// The same value on all three channels.
    pub fn splat(rgb: u8) -> (c: Self)
        ensures
            c == (PixelColor { r: rgb, g: rgb, b: rgb }),
    {
        PixelColor { r: rgb, g: rgb, b: rgb }
    }

    /// A pure red of the given intensity.
    pub fn from_red(r: u8) -> (c: Self)
        ensures
            c == (PixelColor { r, g: 0, b: 0 }),
    {
        PixelColor { r, g: 0, b: 0 }
    }

    /// A pure green of the given intensity.
    pub fn from_green(g: u8) -> (c: Self)
        ensures
            c == (PixelColor { r: 0, g, b: 0 }),
    {
        PixelColor { r: 0, g, b: 0 }
    }

    /// A pure blue of the given intensity.
    pub fn from_blue(b: u8) -> (c: Self)
        ensures
            c == (PixelColor { r: 0, g: 0, b }),
    {
        PixelColor { r: 0, g: 0, b }
    }

    /// This color with the red channel replaced.
    pub fn red(self, r: u8) -> (c: Self)
        ensures
            c == (PixelColor { r, ..self }),
    {
        PixelColor { r, ..self }
    }

    /// This color with the green channel replaced.
    pub fn green(self, g: u8) -> (c: Self)
        ensures
            c == (PixelColor { g, ..self }),
    {
        PixelColor { g, ..self }
    }

    /// This color with the blue channel replaced.
    pub fn blue(self, b: u8) -> (c: Self)
        ensures
            c == (PixelColor { b, ..self }),
    {
        PixelColor { b, ..self }
    }

    /// The red channel.
    pub fn r(&self) -> (v: u8)
        ensures
            v == self.r,
    {
        self.r
    }

    /// The green channel.
    pub fn g(&self) -> (v: u8)
        ensures
            v == self.g,
    {
        self.g
    }

    /// The blue channel.
    pub fn b(&self) -> (v: u8)
        ensures
            v == self.b,
    {
        self.b
    }

    /// Applies `f` to the whole color.
    pub fn map<F: FnOnce(&PixelColor) -> PixelColor>(&self, f: F) -> (c: PixelColor)
        requires
            call_requires(f, (self,)),
        ensures
            call_ensures(f, (self,), c),
    {
        f(self)
    }

    /// Applies `f` to the red channel.
    pub fn map_r<F: FnOnce(u8) -> u8>(&self, f: F) -> (c: PixelColor)
        requires
            call_requires(f, (self.r,)),
        ensures
            c.g == self.g && c.b == self.b && call_ensures(f, (self.r,), c.r),
    {
        PixelColor { r: f(self.r), g: self.g, b: self.b }
    }

    /// Applies `f` to the green channel.
    pub fn map_g<F: FnOnce(u8) -> u8>(&self, f: F) -> (c: PixelColor)
        requires
            call_requires(f, (self.g,)),
        ensures
            c.r == self.r && c.b == self.b && call_ensures(f, (self.g,), c.g),
    {
        PixelColor { r: self.r, g: f(self.g), b: self.b }
    }

    /// Applies `f` to the blue channel.
    pub fn map_b<F: FnOnce(u8) -> u8>(&self, f: F) -> (c: PixelColor)
        requires
            call_requires(f, (self.b,)),
        ensures
            c.r == self.r && c.g == self.g && call_ensures(f, (self.b,), c.b),
    {
        PixelColor { r: self.r, g: self.g, b: f(self.b) }
    }

    /// Applies `f` to every channel.
    pub fn map_all<F: Fn(u8) -> u8>(&self, f: F) -> (c: PixelColor)
        requires
            call_requires(f, (self.r,)),
            call_requires(f, (self.g,)),
            call_requires(f, (self.b,)),
        ensures
            call_ensures(f, (self.r,), c.r),
            call_ensures(f, (self.g,), c.g),
            call_ensures(f, (self.b,), c.b),
    {
        PixelColor { r: f(self.r), g: f(self.g), b: f(self.b) }
    }
}

impl Default for PixelColor {
    /// White, the color every canvas starts from.
    fn default() -> (c: Self)
        ensures
            c == (PixelColor { r: 255, g: 255, b: 255 }),
    {
        PixelColor { r: 255, g: 255, b: 255 }
    }
}

impl ColorValue for PixelColor {
    open spec fn spec_to_maybe(&self) -> Option<PixelColor> {
        Some(*self)
    }

    open spec fn spec_from_maybe(m: Option<PixelColor>) -> Option<Self> {
        m
    }

    fn to_maybe(&self) -> (r: Option<PixelColor>) {
        Some(*self)
    }

    fn from_maybe(m: Option<PixelColor>) -> (r: Option<Self>) {
        m
    }

    fn eq_color(&self, other: &Self) -> (r: bool) {
        *self == *other
    }

    open spec fn spec_default_color() -> Self {
        PixelColor { r: 255, g: 255, b: 255 }
    }

    fn default_color() -> (r: Self) {
        PixelColor { r: 255, g: 255, b: 255 }
    }
}

impl ColorValue for Option<PixelColor> {
    open spec fn spec_to_maybe(&self) -> Option<PixelColor> {
        *self
    }

    open spec fn spec_from_maybe(m: Option<PixelColor>) -> Option<Self> {
        Some(m)
    }

    fn to_maybe(&self) -> (r: Option<PixelColor>) {
        *self
    }

    fn from_maybe(m: Option<PixelColor>) -> (r: Option<Self>) {
        Some(m)
    }

    fn eq_color(&self, other: &Self) -> (r: bool) {
        match (self, other) {
            (Some(a), Some(b)) => *a == *b,
            (None, None) => true,
            _ => false,
        }
    }

    open spec fn spec_default_color() -> Self {
        None
    }

    fn default_color() -> (r: Self) {
        None
    }
}

/// Conversion failure: the source held no color information.
#[derive(Clone, Copy, PartialEq, Eq, Structural, Debug)]
pub struct NoInformation;

/// Failure to convert between color representations.
#[derive(Clone, Copy, PartialEq, Eq, Structural, Debug)]
pub struct ColorConversionError<T>(pub T);

impl<T> ColorConversionError<T> {
    /// A short description of the failure.
    pub fn message(&self) -> (r: &'static str) {
        "failed converting color"
    }
}

/// Converts an optional color into a concrete one, failing on `None`.
pub fn color_from_maybe(value: Option<PixelColor>) -> (r: Result<
    PixelColor,
    ColorConversionError<NoInformation>,
>)
    ensures
        match value {
            Some(c) => r == Ok::<PixelColor, ColorConversionError<NoInformation>>(c),
            None => r == Err::<PixelColor, ColorConversionError<NoInformation>>(
                ColorConversionError(NoInformation),
            ),
        },
{
    match value {
        Some(c) => Ok(c),
        None => Err(ColorConversionError(NoInformation)),
    }
}

} // verus!
