//! Rasterizing canvases to images: every pixel becomes a colored block with
//! a border, drawn into an RGBA image buffer. The buffer itself and the
//! rectangle drawing come from outside image crates; the geometry is the
//! library's own.

use vstd::prelude::*;

use crate::pixels::canvas::PixelCanvasInterface;
use crate::pixels::color::PixelColor;
use crate::pixels::{ColorValue, PixelInterface};

verus! {

/// An RGBA image buffer of the outside image crate, carried opaquely; the
/// unverified rim of the program may take the buffer out to encode or save
/// it.
#[verifier::external_body]
pub struct RasterImage {
    pub inner: image::RgbaImage,
}

/// Width in pixels of an RGBA image buffer.
pub uninterp spec fn image_width(img: &RasterImage) -> u32;

/// Height in pixels of an RGBA image buffer.
pub uninterp spec fn image_height(img: &RasterImage) -> u32;

/// Relies on image::ImageBuffer::new: a zeroed buffer of the given
/// dimensions.
#[verifier::external_body]
fn new_image(width: u32, height: u32) -> (r: RasterImage)
    ensures
        image_width(&r) == width,
        image_height(&r) == height,
{
    RasterImage { inner: image::ImageBuffer::new(width, height) }
}

/// Relies on imageproc::drawing::draw_filled_rect_mut: fills the rectangle
/// clipped to the image and leaves the dimensions alone. The rectangle's
/// sides must be positive, as imageproc rejects empty rectangles, and both
/// the sides and the image's dimensions must fit `i32`, as the callee turns
/// them into `i32` corner coordinates and panics when that fails; the far
/// corners `x + w` and `y + h` must fit `i32` too, as the callee adds them
/// in `i32`.
#[verifier::external_body]
fn fill_rect(img: &mut RasterImage, x: i32, y: i32, w: u32, h: u32, color: PixelColor)
    requires
        w > 0,
        h > 0,
        w as int <= i32::MAX as int,
        h as int <= i32::MAX as int,
        image_width(&*old(img)) as int <= i32::MAX as int,
        image_height(&*old(img)) as int <= i32::MAX as int,
        x as int + w as int <= i32::MAX as int,
        y as int + h as int <= i32::MAX as int,
    ensures
        image_width(final(img)) == image_width(&*old(img)),
        image_height(final(img)) == image_height(&*old(img)),
{
    imageproc::drawing::draw_filled_rect_mut(
        &mut img.inner,
        imageproc::rect::Rect::at(x, y).of_size(w, h),
        image::Rgba([color.r, color.g, color.b, 255]),
    );
}

/// Relies on image::ImageBuffer::put_pixel: writes one pixel inside the
/// image and leaves the dimensions alone; out of bounds it panics, so the
/// coordinates must be inside.
#[verifier::external_body]
fn put_image_pixel(img: &mut RasterImage, x: u32, y: u32, color: PixelColor, alpha: u8)
    requires
        x < image_width(&*old(img)),
        y < image_height(&*old(img)),
    ensures
        image_width(final(img)) == image_width(&*old(img)),
        image_height(final(img)) == image_height(&*old(img)),
{
    img.inner.put_pixel(x, y, image::Rgba([color.r, color.g, color.b, alpha]));
}

/// How a canvas is rendered: the side of each pixel block, the width of the
/// border between blocks, and the border's color.
pub struct PixelImageStyle {
    pub pixel_width: usize,
    pub border_width: usize,
    pub border_color: PixelColor,
}

/// Width or height in image pixels of the rendering of `n` canvas cells:
/// `n` blocks and the `n + 1` borders around them.
pub open spec fn paper_len(n: int, pixel_width: int, border_width: int) -> int {
    n * pixel_width + (n + 1) * border_width
}

impl PixelImageStyle {
    /// A style from block side, border width and border color.
    pub fn new(pixel_width: usize, border_width: usize, border_color: PixelColor) -> (r: Self)
        ensures
            r == (PixelImageStyle { pixel_width, border_width, border_color }),
    {
        PixelImageStyle { pixel_width, border_width, border_color }
    }

    /// Scales both the block and the border up by `scale`.
    pub fn with_scale(self, scale: usize) -> (r: Self)
        requires
            self.pixel_width * scale <= usize::MAX,
            self.border_width * scale <= usize::MAX,
        ensures
            r.pixel_width == self.pixel_width * scale,
            r.border_width == self.border_width * scale,
            r.border_color == self.border_color,
    {
        PixelImageStyle {
            pixel_width: self.pixel_width * scale,
            border_width: self.border_width * scale,
            border_color: self.border_color,
        }
    }
}

impl Default for PixelImageStyle {
    /// Blocks of ten pixels, borders of one, gray borders.
    fn default() -> (r: Self)
        ensures
            r == (PixelImageStyle {
                pixel_width: 10usize,
                border_width: 1usize,
                border_color: PixelColor { r: 50, g: 50, b: 50 },
            }),
    {
        PixelImageStyle {
            pixel_width: 10,
            border_width: 1,
            border_color: PixelColor { r: 50, g: 50, b: 50 },
        }
    }
}

/// Renders the canvas it borrows into an RGBA image buffer.
pub struct PixelImageBuilder<'c, const H: usize, const W: usize, P, I: PixelCanvasInterface<
    H,
    W,
    P,
>> where P: PixelInterface {
    pub canvas_ref: &'c I,
    pub style: PixelImageStyle,
    pub phantom_pixel: core::marker::PhantomData<P>,
}

impl<'c, const H: usize, const W: usize, P: PixelInterface, I: PixelCanvasInterface<H, W, P>> PixelImageBuilder<
    'c,
    H,
    W,
    P,
    I,
> {
    /// The style's sizes stay small enough for every image coordinate to fit.
    pub open spec fn dims_ok(&self) -> bool {
        &&& self.style.pixel_width >= 1
        &&& paper_len(H as int, self.style.pixel_width as int, self.style.border_width as int)
            <= i32::MAX
        &&& paper_len(W as int, self.style.pixel_width as int, self.style.border_width as int)
            <= i32::MAX
    }

    /// A builder over `canvas_ref` with the given style.
    pub fn new(canvas_ref: &'c I, style: PixelImageStyle) -> (r: Self)
        ensures
            r.canvas_ref == canvas_ref,
            r.style == style,
    {
        PixelImageBuilder { canvas_ref, style, phantom_pixel: core::marker::PhantomData }
    }

    /// A builder over `canvas_ref` with the default style.
    pub fn new_default_style(canvas_ref: &'c I) -> (r: Self)
        ensures
            r.canvas_ref == canvas_ref,
            r.style == (PixelImageStyle {
                pixel_width: 10usize,
                border_width: 1usize,
                border_color: PixelColor { r: 50, g: 50, b: 50 },
            }),
    {
        PixelImageBuilder {
            canvas_ref,
            style: PixelImageStyle::default(),
            phantom_pixel: core::marker::PhantomData,
        }
    }

    /// This builder with its style scaled up by `scale`.
    pub fn with_scale(self, scale: usize) -> (r: Self)
        requires
            self.style.pixel_width * scale <= usize::MAX,
            self.style.border_width * scale <= usize::MAX,
        ensures
            r.canvas_ref == self.canvas_ref,
            r.style.pixel_width == self.style.pixel_width * scale,
            r.style.border_width == self.style.border_width * scale,
            r.style.border_color == self.style.border_color,
    {
        PixelImageBuilder {
            canvas_ref: self.canvas_ref,
            style: self.style.with_scale(scale),
            phantom_pixel: core::marker::PhantomData,
        }
    }

    /// A blank paper image sized for the whole canvas: each cell a block,
    /// with borders between and around the blocks.
    fn get_pixel_paper_image(&self) -> (r: RasterImage)
        requires
            self.dims_ok(),
        ensures
            image_width(&r) as int == paper_len(
                W as int,
                self.style.pixel_width as int,
                self.style.border_width as int,
            ),
            image_height(&r) as int == paper_len(
                H as int,
                self.style.pixel_width as int,
                self.style.border_width as int,
            ),
    {
        let separator_pixel_length = self.style.border_width;

        proof {
            lemma_paper_len_bounds(H as int, self.style.pixel_width as int, self.style.border_width as int);
            lemma_paper_len_bounds(W as int, self.style.pixel_width as int, self.style.border_width as int);
        }
        let blocks_pixel_in_height = H * self.style.pixel_width;
        let separators_count_in_height = H + 1;
        let separators_pixel_in_height = separators_count_in_height * separator_pixel_length;
        let height = blocks_pixel_in_height + separators_pixel_in_height;

        let blocks_pixel_in_width = W * self.style.pixel_width;
        let separators_count_in_width = W + 1;
        let separators_pixel_in_width = separators_count_in_width * separator_pixel_length;
        let width = blocks_pixel_in_width + separators_pixel_in_width;

        new_image(width as u32, height as u32)
    }

    /// Draws one cell: its four border strips and its color block.
    fn draw_pixel_on_image(
        &self,
        row: usize,
        column: usize,
        color: PixelColor,
        alpha: u8,
        image: &mut RasterImage,
    )
        requires
            self.dims_ok(),
            row < H,
            column < W,
            image_width(&*old(image)) as int == paper_len(
                W as int,
                self.style.pixel_width as int,
                self.style.border_width as int,
            ),
            image_height(&*old(image)) as int == paper_len(
                H as int,
                self.style.pixel_width as int,
                self.style.border_width as int,
            ),
        ensures
            image_width(final(image)) == image_width(&*old(image)),
            image_height(final(image)) == image_height(&*old(image)),
    {
        proof {
            lemma_paper_len_bounds(H as int, self.style.pixel_width as int, self.style.border_width as int);
            lemma_paper_len_bounds(W as int, self.style.pixel_width as int, self.style.border_width as int);
            lemma_paper_cell_bounds(
                H as int,
                row as int,
                self.style.pixel_width as int,
                self.style.border_width as int,
            );
            lemma_paper_cell_bounds(
                W as int,
                column as int,
                self.style.pixel_width as int,
                self.style.border_width as int,
            );
        }
        let bw = self.style.border_width;
        let pw = self.style.pixel_width;
        let bpw = bw + pw;

        let start_row = row * bw + row * pw;
        let start_column = column * bw + column * pw;

        if bw > 0 {
            fill_rect(
                image,
                start_column as i32,
                start_row as i32,
                bpw as u32,
                bw as u32,
                self.style.border_color,
            );
            fill_rect(
                image,
                (start_column + bpw) as i32,
                start_row as i32,
                bw as u32,
                bpw as u32,
                self.style.border_color,
            );
            fill_rect(
                image,
                start_column as i32,
                (start_row + bw) as i32,
                bw as u32,
                bpw as u32,
                self.style.border_color,
            );
            fill_rect(
                image,
                (start_column + bw) as i32,
                (start_row + bpw) as i32,
                bpw as u32,
                bw as u32,
                self.style.border_color,
            );
        }
        let start_x_pixel = start_row + bw;
        let start_y_pixel = start_column + bw;

        let mut i: usize = 0;
        while i < pw
            invariant
                i <= pw,
                pw == self.style.pixel_width,
                bw == self.style.border_width,
                start_y_pixel as int + pw <= image_width(image) as int,
                start_x_pixel as int + pw <= image_height(image) as int,
                image_width(image) == image_width(&*old(image)),
                image_height(image) == image_height(&*old(image)),
            decreases pw - i,
        {
            let mut j: usize = 0;
            while j < pw
                invariant
                    i < pw,
                    j <= pw,
                    pw == self.style.pixel_width,
                    start_y_pixel as int + pw <= image_width(image) as int,
                    start_x_pixel as int + pw <= image_height(image) as int,
                    image_width(image) == image_width(&*old(image)),
                    image_height(image) == image_height(&*old(image)),
                decreases pw - j,
            {
                put_image_pixel(
                    image,
                    (i + start_y_pixel) as u32,
                    (j + start_x_pixel) as u32,
                    color,
                    alpha,
                );
                j += 1;
            }
            i += 1;
        }
    }

    /// Draws every colored cell of the canvas onto the image.
    pub fn draw_on_image(&self, image: &mut RasterImage)
        requires
            self.dims_ok(),
            self.canvas_ref.spec_table().wf(),
            image_width(&*old(image)) as int == paper_len(
                W as int,
                self.style.pixel_width as int,
                self.style.border_width as int,
            ),
            image_height(&*old(image)) as int == paper_len(
                H as int,
                self.style.pixel_width as int,
                self.style.border_width as int,
            ),
        ensures
            image_width(final(image)) == image_width(&*old(image)),
            image_height(final(image)) == image_height(&*old(image)),
    {
        let table = self.canvas_ref.table();
        let mut row: usize = 0;
        while row < H
            invariant
                self.dims_ok(),
                table.wf(),
                row <= H,
                image_width(image) == image_width(&*old(image)),
                image_height(image) == image_height(&*old(image)),
                image_width(&*old(image)) as int == paper_len(
                    W as int,
                    self.style.pixel_width as int,
                    self.style.border_width as int,
                ),
                image_height(&*old(image)) as int == paper_len(
                    H as int,
                    self.style.pixel_width as int,
                    self.style.border_width as int,
                ),
            decreases H - row,
        {
            let mut column: usize = 0;
            while column < W
                invariant
                    self.dims_ok(),
                    table.wf(),
                    row < H,
                    column <= W,
                    image_width(image) == image_width(&*old(image)),
                    image_height(image) == image_height(&*old(image)),
                    image_width(&*old(image)) as int == paper_len(
                        W as int,
                        self.style.pixel_width as int,
                        self.style.border_width as int,
                    ),
                    image_height(&*old(image)) as int == paper_len(
                        H as int,
                        self.style.pixel_width as int,
                        self.style.border_width as int,
                    ),
                decreases W - column,
            {
                let handle = match table.inner.get((row, column)) {
                    Some(h) => h,
                    None => {
                        proof {
                            assert(false);
                        }
                        unreached()
                    },
                };
                if handle.value.has_color() {
                    match handle.value.color().to_maybe() {
                        Some(c) => {
                            self.draw_pixel_on_image(row, column, c, 255, image);
                        },
                        None => {},
                    }
                }
                column += 1;
            }
            row += 1;
        }
    }

    /// The whole canvas rendered: a fresh paper image with every colored
    /// cell drawn on it.
    pub fn get_image(&self) -> (r: RasterImage)
        requires
            self.dims_ok(),
            self.canvas_ref.spec_table().wf(),
        ensures
            image_width(&r) as int == paper_len(
                W as int,
                self.style.pixel_width as int,
                self.style.border_width as int,
            ),
            image_height(&r) as int == paper_len(
                H as int,
                self.style.pixel_width as int,
                self.style.border_width as int,
            ),
    {
        let mut image = self.get_pixel_paper_image();
        self.draw_on_image(&mut image);
        image
    }
}

/// The paper is at least as large as any of its cell blocks and fits `i32`.
proof fn lemma_paper_len_bounds(n: int, pw: int, bw: int)
    requires
        n >= 0,
        pw >= 1,
        bw >= 0,
        paper_len(n, pw, bw) <= i32::MAX,
    ensures
        n * pw >= 0,
        n <= n * pw,
        (n + 1) * bw >= 0,
        n * pw + (n + 1) * bw <= i32::MAX,
{
    assert(n * pw >= 0 && n <= n * pw) by (nonlinear_arith)
        requires
            n >= 0,
            pw >= 1,
    ;
    assert((n + 1) * bw >= 0) by (nonlinear_arith)
        requires
            n >= 0,
            bw >= 0,
    ;
}

/// A cell's block, borders included, lies inside the paper.
proof fn lemma_paper_cell_bounds(n: int, k: int, pw: int, bw: int)
    requires
        0 <= k < n,
        pw >= 0,
        bw >= 0,
    ensures
        k * bw + k * pw >= 0,
        k * bw + k * pw + pw + bw + bw <= paper_len(n, pw, bw),
{
    assert(k * bw + k * pw >= 0) by (nonlinear_arith)
        requires
            k >= 0,
            pw >= 0,
            bw >= 0,
    ;
    assert(k * bw + k * pw + pw + bw + bw <= n * pw + (n + 1) * bw) by (nonlinear_arith)
        requires
            0 <= k < n,
            pw >= 0,
            bw >= 0,
    ;
}

} // verus!
