//! The named colors used throughout the library.

use vstd::prelude::*;

use super::PixelColor;

verus! {

/// Color white.
pub fn white() -> (c: PixelColor)
    ensures
        c == (PixelColor { r: 255, g: 255, b: 255 }),
{
    PixelColor { r: 255, g: 255, b: 255 }
}

/// Color black.
pub fn black() -> (c: PixelColor)
    ensures
        c == (PixelColor { r: 0, g: 0, b: 0 }),
{
    PixelColor { r: 0, g: 0, b: 0 }
}

/// Color red.
pub fn red() -> (c: PixelColor)
    ensures
        c == (PixelColor { r: 255, g: 0, b: 0 }),
{
    PixelColor { r: 255, g: 0, b: 0 }
}

/// Color green.
pub fn green() -> (c: PixelColor)
    ensures
        c == (PixelColor { r: 0, g: 255, b: 0 }),
{
    PixelColor { r: 0, g: 255, b: 0 }
}

/// Color blue.
pub fn blue() -> (c: PixelColor)
    ensures
        c == (PixelColor { r: 0, g: 0, b: 255 }),
{
    PixelColor { r: 0, g: 0, b: 255 }
}

/// Color yellow.
pub fn yellow() -> (c: PixelColor)
    ensures
        c == (PixelColor { r: 255, g: 255, b: 0 }),
{
    PixelColor { r: 255, g: 255, b: 0 }
}

/// Color cyan.
pub fn cyan() -> (c: PixelColor)
    ensures
        c == (PixelColor { r: 0, g: 255, b: 255 }),
{
    PixelColor { r: 0, g: 255, b: 255 }
}

/// Color magenta.
pub fn magenta() -> (c: PixelColor)
    ensures
        c == (PixelColor { r: 255, g: 0, b: 255 }),
{
    PixelColor { r: 255, g: 0, b: 255 }
}

} // verus!
