//! Drawing one canvas onto another: every source cell that carries a color
//! is translated by the start offset and, when it lands inside the target
//! and its color converts, written through the target's write-handle path.

use vstd::prelude::*;

use super::table::PixelTable;
use super::{PixelCanvas, PixelCanvasMutInterface};
use crate::pixels::position::{IntoPixelStrictPosition, PixelStrictPosition};
use crate::pixels::{ColorValue, PixelInterface, PixelMutInterface};

verus! {

/// What drawing leaves at target cell `(i, j)`: the old pixel recolored with
/// the converted source color when the translated source cell carries one,
/// the old pixel otherwise.
pub open spec fn drawn_cell<
    const HD: usize,
    const WD: usize,
    MP: PixelInterface,
    P: PixelMutInterface,
>(
    src: PixelTable<HD, WD, MP>,
    start_row: int,
    start_col: int,
    old_cell: P,
    i: int,
    j: int,
) -> P {
    let sr = i - start_row;
    let sc = j - start_col;
    if 0 <= sr < HD && 0 <= sc < WD && src.cell(sr, sc).spec_has_color() {
        match P::ColorType::spec_from_maybe(src.cell(sr, sc).spec_color().spec_to_maybe()) {
            Some(c) => old_cell.spec_with_color(c),
            None => old_cell,
        }
    } else {
        old_cell
    }
}

/// Draws every colored cell of `me` onto `canvas`, translated so that the
/// source's top left corner lands on `start_pos`; cells falling outside the
/// target or failing color conversion are skipped.
pub fn draw_canvas_on<
    const H: usize,
    const W: usize,
    const HC: usize,
    const WC: usize,
    MP: PixelInterface,
    P: PixelMutInterface,
    C: PixelCanvasMutInterface<HC, WC, P>,
    T: IntoPixelStrictPosition<HC, WC>,
>(
    me: &PixelTable<H, W, MP>,
    start_pos: T,
    canvas: &mut C,
)
    requires
        me.wf(),
        old(canvas).spec_table().wf(),
        start_pos.into_wf(),
    ensures
        final(canvas).spec_table().wf(),
        final(canvas).spec_table().defv() == old(canvas).spec_table().defv(),
        forall|i: int, j: int|
            0 <= i < HC && 0 <= j < WC ==> final(canvas).spec_table().cell(i, j) == drawn_cell(
                *me,
                start_pos.into_row(),
                start_pos.into_column(),
                old(canvas).spec_table().cell(i, j),
                i,
                j,
            ),
        forall|i: int, j: int|
            !(0 <= i < HC && 0 <= j < WC) ==> final(canvas).spec_table().cell(i, j) == old(
                canvas,
            ).spec_table().cell(i, j),
{
    let start = start_pos.into_pixel_strict_position();
    let start_row = start.raw.row;
    let start_col = start.raw.column;
    let t = canvas.table_mut();
    let ghost orig = *t;
    let mut sr: usize = 0;
    while sr < H
        invariant
            me.wf(),
            t.wf(),
            t.defv() == orig.defv(),
            sr <= H,
            start_row < HC,
            start_col < WC,
            start_row as int == start_pos.into_row(),
            start_col as int == start_pos.into_column(),
            forall|i: int, j: int|
                0 <= i < HC && 0 <= j < WC && i - start_row < sr ==> t.cell(i, j) == drawn_cell(
                    *me,
                    start_row as int,
                    start_col as int,
                    orig.cell(i, j),
                    i,
                    j,
                ),
            forall|i: int, j: int|
                !(0 <= i < HC && 0 <= j < WC) || i - start_row >= sr ==> t.cell(i, j) == orig.cell(
                    i,
                    j,
                ),
        decreases H - sr,
    {
        let mut sc: usize = 0;
        while sc < W
            invariant
                me.wf(),
                t.wf(),
                t.defv() == orig.defv(),
                sr < H,
                sc <= W,
                start_row < HC,
                start_col < WC,
                start_row as int == start_pos.into_row(),
                start_col as int == start_pos.into_column(),
                forall|i: int, j: int|
                    0 <= i < HC && 0 <= j < WC && (i - start_row < sr || (i - start_row == sr && j
                        - start_col < sc)) ==> t.cell(i, j) == drawn_cell(
                        *me,
                        start_row as int,
                        start_col as int,
                        orig.cell(i, j),
                        i,
                        j,
                    ),
                forall|i: int, j: int|
                    !(0 <= i < HC && 0 <= j < WC) || i - start_row > sr || (i - start_row == sr && j
                        - start_col >= sc) ==> t.cell(i, j) == orig.cell(i, j),
            decreases W - sc,
        {
            if sr < HC - start_row && sc < WC - start_col {
                let tr = start_row + sr;
                let tc = start_col + sc;
                let src_handle = match me.inner.get((sr, sc)) {
                    Some(h) => h,
                    None => {
                        proof {
                            assert(false);
                        }
                        unreached()
                    },
                };
                proof {
                    src_handle.value.pixel_laws(src_handle.value.spec_color());
                }
                if src_handle.value.has_color() {
                    let m = src_handle.value.color().to_maybe();
                    match P::ColorType::from_maybe(m) {
                        Some(c) => {
                            let pos = match PixelStrictPosition::<HC, WC>::new(tr, tc) {
                                Ok(p) => p,
                                Err(_) => {
                                    proof {
                                        assert(false);
                                    }
                                    unreached()
                                },
                            };
                            let _ = t.update_color_at(pos, c);
                        },
                        None => {},
                    }
                }
            }
            sc += 1;
        }
        sr += 1;
    }
}

/// Something that can be drawn onto a canvas: it exposes the pixel table its
/// colored cells are read from.
pub trait Drawable<const H: usize, const W: usize, MP: PixelInterface>: Sized {
    /// The table this drawable paints from, as a mathematical value.
    spec fn spec_source(&self) -> PixelTable<H, W, MP>;

    /// The table this drawable paints from.
    fn source_table(&self) -> (r: &PixelTable<H, W, MP>)
        ensures
            *r == self.spec_source(),
    ;

    /// Draws this drawable on `canvas`, its top left corner at `start_pos`;
    /// the dimensions of drawable and canvas may differ.
    fn draw_on<
        const HC: usize,
        const WC: usize,
        P: PixelMutInterface,
        C: PixelCanvasMutInterface<HC, WC, P>,
        T: IntoPixelStrictPosition<HC, WC>,
    >(&self, start_pos: T, canvas: &mut C)
        requires
            self.spec_source().wf(),
            old(canvas).spec_table().wf(),
            start_pos.into_wf(),
        ensures
            final(canvas).spec_table().wf(),
            final(canvas).spec_table().defv() == old(canvas).spec_table().defv(),
            forall|i: int, j: int|
                0 <= i < HC && 0 <= j < WC ==> final(canvas).spec_table().cell(i, j) == drawn_cell(
                    self.spec_source(),
                    start_pos.into_row(),
                    start_pos.into_column(),
                    old(canvas).spec_table().cell(i, j),
                    i,
                    j,
                ),
            forall|i: int, j: int|
                !(0 <= i < HC && 0 <= j < WC) ==> final(canvas).spec_table().cell(i, j) == old(
                    canvas,
                ).spec_table().cell(i, j),
    {
        draw_canvas_on(self.source_table(), start_pos, canvas)
    }

    /// Same as [`Drawable::draw_on`], with drawable and canvas of the same
    /// dimensions.
    fn draw_on_exact<
        P: PixelMutInterface,
        C: PixelCanvasMutInterface<H, W, P>,
        T: IntoPixelStrictPosition<H, W>,
    >(&self, start_pos: T, canvas: &mut C)
        requires
            self.spec_source().wf(),
            old(canvas).spec_table().wf(),
            start_pos.into_wf(),
        ensures
            final(canvas).spec_table().wf(),
            final(canvas).spec_table().defv() == old(canvas).spec_table().defv(),
            forall|i: int, j: int|
                0 <= i < H && 0 <= j < W ==> final(canvas).spec_table().cell(i, j) == drawn_cell(
                    self.spec_source(),
                    start_pos.into_row(),
                    start_pos.into_column(),
                    old(canvas).spec_table().cell(i, j),
                    i,
                    j,
                ),
            forall|i: int, j: int|
                !(0 <= i < H && 0 <= j < W) ==> final(canvas).spec_table().cell(i, j) == old(
                    canvas,
                ).spec_table().cell(i, j),
    {
        draw_canvas_on(self.source_table(), start_pos, canvas)
    }

    /// Same as [`Drawable::draw_on_exact`], starting at the top left corner.
    fn draw_on_exact_abs<P: PixelMutInterface, C: PixelCanvasMutInterface<H, W, P>>(
        &self,
        canvas: &mut C,
    )
        requires
            self.spec_source().wf(),
            old(canvas).spec_table().wf(),
            H >= 1,
            W >= 1,
        ensures
            final(canvas).spec_table().wf(),
            final(canvas).spec_table().defv() == old(canvas).spec_table().defv(),
            forall|i: int, j: int|
                0 <= i < H && 0 <= j < W ==> final(canvas).spec_table().cell(i, j) == drawn_cell(
                    self.spec_source(),
                    0,
                    0,
                    old(canvas).spec_table().cell(i, j),
                    i,
                    j,
                ),
            forall|i: int, j: int|
                !(0 <= i < H && 0 <= j < W) ==> final(canvas).spec_table().cell(i, j) == old(
                    canvas,
                ).spec_table().cell(i, j),
    {
        let pos = match PixelStrictPosition::<H, W>::new(0, 0) {
            Ok(p) => p,
            Err(_) => {
                proof {
                    assert(false);
                }
                unreached()
            },
        };
        draw_canvas_on(self.source_table(), pos, canvas)
    }
}

impl<const H: usize, const W: usize, MP: PixelInterface> Drawable<H, W, MP> for PixelTable<
    H,
    W,
    MP,
> {
    open spec fn spec_source(&self) -> PixelTable<H, W, MP> {
        *self
    }

    fn source_table(&self) -> (r: &PixelTable<H, W, MP>) {
        self
    }
}

impl<const H: usize, const W: usize, MP: PixelInterface> Drawable<H, W, MP> for PixelCanvas<
    H,
    W,
    MP,
> {
    open spec fn spec_source(&self) -> PixelTable<H, W, MP> {
        self.table
    }

    fn source_table(&self) -> (r: &PixelTable<H, W, MP>) {
        &self.table
    }
}

} // verus!
