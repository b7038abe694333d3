//! A dense row of pixels: a plain buffer of `W` pixel values with its row
//! number, independent of the sparse table.

use vstd::prelude::*;

use crate::pixels::{PixelInitializer, PixelInterface};

verus! {

/// A dense row of `W` pixels.
pub struct PixelRow<const W: usize, P> {
    /// Row number, starting from 0.
    pub row: usize,
    /// The pixels of the row, left to right.
    pub pixels: Vec<P>,
}

impl<const W: usize, P: PixelInterface> PixelRow<W, P> {
    /// The row holds exactly `W` valid pixels.
    pub open spec fn wf(&self) -> bool {
        &&& self.pixels@.len() == W
        &&& forall|k: int| 0 <= k < self.pixels@.len() ==> (#[trigger] self.pixels@[k]).inv()
    }

    /// A row of `W` pixels all carrying `fill_color`.
    pub fn new(row: usize, fill_color: P::ColorType) -> (r: Self) where P: PixelInitializer
        ensures
            r.wf(),
            r.row == row,
            forall|k: int|
                0 <= k < W ==> #[trigger] r.pixels@[k] == P::default_value_spec().spec_with_color(
                    fill_color,
                ),
    {
        let mut pixels: Vec<P> = Vec::new();
        let mut k: usize = 0;
        while k < W
            invariant
                k <= W,
                pixels@.len() == k,
                forall|q: int|
                    0 <= q < k ==> #[trigger] pixels@[q] == P::default_value_spec().spec_with_color(
                        fill_color,
                    ),
            decreases W - k,
        {
            let p = P::new(fill_color);
            proof {
                P::default_value_spec().pixel_laws(fill_color);
            }
            pixels.push(p);
            k += 1;
        }
        proof {
            P::default_value_spec().pixel_laws(fill_color);
        }
        PixelRow { row, pixels }
    }

    /// The pixel at column `k`.
    pub fn get(&self, k: usize) -> (r: &P)
        requires
            self.wf(),
            k < W,
        ensures
            *r == self.pixels@[k as int],
    {
        &self.pixels[k]
    }

    /// Number of pixels in the row.
    pub fn len(&self) -> (r: usize)
        requires
            self.wf(),
        ensures
            r == W,
    {
        self.pixels.len()
    }
}

} // verus!
