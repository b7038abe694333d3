//! The table of pixels backing every canvas: a sparse fixed-capacity
//! two-dimensional container of pixel values.

use vstd::prelude::*;

use crate::illusion::table::{
    row_major_order, IllusionArray2DHandle, IllusionArray2DHandleMut, IllusionTable,
};
use crate::illusion::{IllusionArray, IllusionArrayHandle, IllusionArrayHandleMut, IllusionValue};
use crate::pixels::position::IntoPixelStrictPosition;
use crate::pixels::{ColorValue, PixelInterface, PixelMutInterface};

verus! {

/// A table of pixels: every cell reads as a pixel value, but only the cells
/// that differ from the default pixel are physically stored.
pub struct PixelTable<const H: usize, const W: usize, P> {
    pub inner: IllusionTable<H, W, P>,
}

impl<const H: usize, const W: usize, P: PixelInterface> PixelTable<H, W, P> {
    /// The pixel value every unstored cell reads as.
    pub open spec fn defv(&self) -> P {
        self.inner.defv()
    }

    /// The effective pixel at `(r, c)`.
    pub open spec fn cell(&self, r: int, c: int) -> P {
        self.inner.cell(r, c)
    }

    /// Whether the cell at `(r, c)` is physically stored.
    pub open spec fn present2(&self, r: int, c: int) -> bool {
        self.inner.present2(r, c)
    }

    /// Total number of stored cells.
    pub open spec fn total_filled(&self) -> int {
        self.inner.total_filled()
    }

    /// Well-formedness of the backing store.
    pub open spec fn wf(&self) -> bool {
        self.inner.wf()
    }

    /// An empty table over the given default pixel.
    pub fn new_with_default(default: P) -> (r: Self)
        requires
            default.inv(),
        ensures
            r.wf(),
            r.defv() == default.model(),
            r.total_filled() == 0,
            forall|i: int, j: int| r.cell(i, j) == default.model(),
    {
        PixelTable { inner: IllusionTable::new(default) }
    }

    /// Number of physically stored cells.
    pub fn filled_len(&self) -> (r: usize)
        requires
            self.wf(),
            (H as int) * (W as int) <= usize::MAX as int,
        ensures
            r == self.total_filled(),
    {
        self.inner.filled_len()
    }

    /// A read handle over the pixel at `pos`.
    pub fn get_pixel<T: IntoPixelStrictPosition<H, W>>(&self, pos: T) -> (r: IllusionArray2DHandle<
        P,
    >)
        requires
            self.wf(),
            pos.into_wf(),
        ensures
            0 <= pos.into_row() < H,
            0 <= pos.into_column() < W,
            r.index.0 as int == pos.into_row(),
            r.index.1 as int == pos.into_column(),
            r.value.inv(),
            r.value.model() == self.cell(pos.into_row(), pos.into_column()),
    {
        let p = pos.into_pixel_strict_position();
        match self.inner.get((p.raw.row, p.raw.column)) {
            Some(h) => h,
            None => {
                proof {
                    assert(false);
                }
                unreached()
            },
        }
    }

    /// A write handle over the pixel at `pos`, started at the current
    /// effective pixel; commit it back with [`PixelTable::commit_pixel`].
    pub fn get_pixel_mut<T: IntoPixelStrictPosition<H, W>>(&mut self, pos: T) -> (r:
        IllusionArray2DHandleMut<P>)
        requires
            old(self).wf(),
            pos.into_wf(),
        ensures
            *final(self) == *old(self),
            0 <= pos.into_row() < H,
            0 <= pos.into_column() < W,
            r.index.0 as int == pos.into_row(),
            r.index.1 as int == pos.into_column(),
            r.current.inv(),
            r.current.model() == old(self).cell(pos.into_row(), pos.into_column()),
    {
        let p = pos.into_pixel_strict_position();
        match self.inner.get_mut((p.raw.row, p.raw.column)) {
            Some(h) => h,
            None => {
                proof {
                    assert(false);
                }
                unreached()
            },
        }
    }

    /// Commits a write handle produced by [`PixelTable::get_pixel_mut`]:
    /// the round trip holds, since the committed cell afterwards reads as
    /// exactly the handle's working copy.
    pub fn commit_pixel(&mut self, h: IllusionArray2DHandleMut<P>)
        requires
            old(self).wf(),
            h.index.0 < H,
            h.index.1 < W,
            h.current.inv(),
        ensures
            final(self).wf(),
            final(self).defv() == old(self).defv(),
            final(self).cell(h.index.0 as int, h.index.1 as int) == h.current.model(),
            forall|i: int, j: int|
                !(i == h.index.0 && j == h.index.1) ==> final(self).cell(i, j) == old(self).cell(
                    i,
                    j,
                ) && final(self).present2(i, j) == old(self).present2(i, j),
            final(self).present2(h.index.0 as int, h.index.1 as int) == (h.current.model() != old(self).defv()),
            final(self).total_filled() == old(self).total_filled() - (if old(self).present2(
                h.index.0 as int,
                h.index.1 as int,
            ) {
                1int
            } else {
                0int
            }) + (if h.current.model() != old(self).defv() {
                1int
            } else {
                0int
            }),
    {
        self.inner.commit(h)
    }

    /// The effective color at `pos`.
    pub fn color_at<T: IntoPixelStrictPosition<H, W>>(&self, pos: T) -> (c: P::ColorType)
        requires
            self.wf(),
            pos.into_wf(),
        ensures
            c == self.cell(pos.into_row(), pos.into_column()).spec_color(),
    {
        let h = self.get_pixel(pos);
        proof {
            h.value.pixel_laws(h.value.spec_color());
        }
        *h.get().color()
    }

    /// Replaces the color of the pixel at `pos`, returning the previous one.
    pub fn update_color_at<T: IntoPixelStrictPosition<H, W>>(
        &mut self,
        pos: T,
        color: P::ColorType,
    ) -> (prev: P::ColorType) where P: PixelMutInterface
        requires
            old(self).wf(),
            pos.into_wf(),
        ensures
            final(self).wf(),
            final(self).defv() == old(self).defv(),
            prev == old(self).cell(pos.into_row(), pos.into_column()).spec_color(),
            final(self).cell(pos.into_row(), pos.into_column()) == old(self).cell(
                pos.into_row(),
                pos.into_column(),
            ).spec_with_color(color),
            forall|i: int, j: int|
                !(i == pos.into_row() && j == pos.into_column()) ==> final(self).cell(i, j) == old(self).cell(i, j),
    {
        let mut h = self.get_pixel_mut(pos);
        proof {
            h.current.pixel_laws(color);
        }
        let p = h.get_mut();
        let prev = p.update_color(color);
        proof {
            h.current.pixel_laws(color);
        }
        self.commit_pixel(h);
        prev
    }

    /// Exchanges the effective pixels of two positions.
    pub fn swap<A: IntoPixelStrictPosition<H, W>, B: IntoPixelStrictPosition<H, W>>(
        &mut self,
        a: A,
        b: B,
    )
        requires
            old(self).wf(),
            a.into_wf(),
            b.into_wf(),
        ensures
            final(self).wf(),
            final(self).defv() == old(self).defv(),
            final(self).cell(a.into_row(), a.into_column()) == old(self).cell(
                b.into_row(),
                b.into_column(),
            ),
            final(self).cell(b.into_row(), b.into_column()) == old(self).cell(
                a.into_row(),
                a.into_column(),
            ),
            forall|i: int, j: int|
                !(i == a.into_row() && j == a.into_column()) && !(i == b.into_row() && j
                    == b.into_column()) ==> final(self).cell(i, j) == old(self).cell(i, j),
            final(self).total_filled() == old(self).total_filled(),
    {
        let pa = a.into_pixel_strict_position();
        let pb = b.into_pixel_strict_position();
        self.inner.swap((pa.raw.row, pa.raw.column), (pb.raw.row, pb.raw.column))
    }

    /// The physically present cells as `((row, column), pixel)` pairs, in
    /// row-major order.
    pub fn real_items<'a>(&'a self) -> (r: Vec<((usize, usize), &'a P)>)
        requires
            self.wf(),
        ensures
            r@.len() == self.total_filled(),
            forall|k: int|
                0 <= k < r@.len() ==> {
                    let ((i, j), v) = #[trigger] r@[k];
                    self.present2(i as int, j as int) && v.inv() && v.model() == self.cell(
                        i as int,
                        j as int,
                    )
                },
            forall|k1: int, k2: int|
                0 <= k1 < k2 < r@.len() ==> ((#[trigger] r@[k1]).0.0 < (#[trigger] r@[k2]).0.0 || (
                r@[k1].0.0 == r@[k2].0.0 && r@[k1].0.1 < r@[k2].0.1)),
    {
        self.inner.real_items()
    }

    /// Write handles over the physically present cells, each committed back
    /// individually.
    pub fn real_items_mut(&mut self) -> (r: Vec<IllusionArray2DHandleMut<P>>)
        requires
            old(self).wf(),
        ensures
            *final(self) == *old(self),
            r@.len() == old(self).total_filled(),
            forall|k: int|
                0 <= k < r@.len() ==> {
                    let h = #[trigger] r@[k];
                    old(self).present2(h.index.0 as int, h.index.1 as int) && h.current.inv()
                        && h.current.model() == old(self).cell(h.index.0 as int, h.index.1 as int)
                },
    {
        self.inner.real_items_mut()
    }

    /// A fresh read cursor over all pixels, row-major.
    pub fn iter_pixels<'a>(&'a self) -> (r: crate::illusion::table::IllusionTableIter<'a, H, W, P>)
        ensures
            r.inner == &self.inner.inner,
            r.curr_index == (0usize, 0usize),
    {
        self.inner.iter()
    }

    /// A fresh write cursor over all pixels, row-major; each handle is
    /// committed back individually.
    pub fn iter_pixels_mut(&mut self) -> (r: crate::illusion::table::IllusionTableIterMut)
        ensures
            *final(self) == *old(self),
            r.curr_index == (0usize, 0usize),
    {
        self.inner.iter_mut()
    }

    /// A fresh cursor over whole rows, in increasing row order.
    pub fn iter(&self) -> (r: PixelRowsIter)
        ensures
            r.row == 0,
    {
        PixelRowsIter { row: 0 }
    }

    /// A fresh write cursor over whole rows, in increasing row order; each
    /// row handle is committed back individually.
    pub fn iter_mut(&mut self) -> (r: PixelRowsIterMut)
        ensures
            *final(self) == *old(self),
            r.row == 0,
    {
        PixelRowsIterMut { row: 0 }
    }

    /// A read handle over a whole row; `None` exactly when out of bounds.
    pub fn get_row(&self, row: usize) -> (r: Option<IllusionArrayHandle<IllusionArray<W, P>>>)
        requires
            self.wf(),
        ensures
            match r {
                Some(h) => row < H && h.index == row && h.value.wf() && h.value.defv()
                    == self.defv() && (forall|c: int|
                    h.value.effective(c) == self.cell(row as int, c)) && (forall|c: int|
                    h.value.present(c) == self.present2(row as int, c)),
                None => row >= H,
            },
    {
        self.inner.get_row(row)
    }

    /// A write handle over a whole row; commit it back with
    /// [`PixelTable::commit_row`].
    pub fn get_row_mut(&mut self, row: usize) -> (r: Option<
        IllusionArrayHandleMut<IllusionArray<W, P>>,
    >)
        requires
            old(self).wf(),
        ensures
            *final(self) == *old(self),
            match r {
                Some(h) => row < H && h.index == row && h.current.wf() && h.current.defv() == old(self).defv() && (forall|c: int|
                    h.current.effective(c) == old(self).cell(row as int, c)) && (forall|c: int|
                    h.current.present(c) == old(self).present2(row as int, c)),
                None => row >= H,
            },
    {
        self.inner.get_row_mut(row)
    }

    /// Commits a row handle produced by [`PixelTable::get_row_mut`].
    pub fn commit_row(&mut self, h: IllusionArrayHandleMut<IllusionArray<W, P>>)
        requires
            old(self).wf(),
            h.index < H,
            h.current.wf(),
            h.current.defv() == old(self).defv(),
        ensures
            final(self).wf(),
            final(self).defv() == old(self).defv(),
            forall|c: int| final(self).cell(h.index as int, c) == h.current.effective(c),
            forall|c: int| final(self).present2(h.index as int, c) == h.current.present(c),
            forall|i: int, j: int|
                i != h.index ==> final(self).cell(i, j) == old(self).cell(i, j) && final(self).present2(i, j) == old(self).present2(i, j),
    {
        self.inner.commit_row(h)
    }

    /// Default elision at the pixel level: a cell is stored exactly when
    /// its pixel differs from the default pixel.
    pub proof fn lemma_default_elision(&self, r: int, c: int)
        requires
            self.wf(),
        ensures
            self.present2(r, c) <==> self.cell(r, c) != self.defv(),
    {
        self.inner.lemma_default_elision2(r, c);
    }

    /// A model-preserving copy of this table, rebuilt row by row from
    /// copies of the stored rows over a copy of the default pixel.
    pub fn duplicate(&self) -> (r: Self)
        requires
            self.wf(),
        ensures
            r.wf(),
            r.defv() == self.defv(),
            forall|i: int, j: int| r.cell(i, j) == self.cell(i, j),
            forall|i: int, j: int| r.present2(i, j) == self.present2(i, j),
    {
        let mut out: PixelTable<H, W, P> = PixelTable {
            inner: IllusionTable::new(self.inner.inner.default.dup()),
        };
        let mut row: usize = 0;
        while row < H
            invariant
                self.wf(),
                out.wf(),
                out.defv() == self.defv(),
                row <= H,
                forall|i: int, j: int|
                    0 <= i < row ==> out.cell(i, j) == self.cell(i, j) && out.present2(i, j)
                        == self.present2(i, j),
                forall|i: int, j: int|
                    !(0 <= i < row) ==> !out.present2(i, j) && out.cell(i, j) == self.defv(),
            decreases H - row,
        {
            let rh = match self.get_row(row) {
                Some(h) => h,
                None => {
                    proof {
                        assert(false);
                    }
                    unreached()
                },
            };
            let copy = rh.value.duplicate();
            let h2 = IllusionArrayHandleMut { index: row, current: copy };
            let ghost h2g = h2;
            out.commit_row(h2);
            proof {
                assert forall|jj: int|
                    out.cell(row as int, jj) == self.cell(row as int, jj) && out.present2(
                        row as int,
                        jj,
                    ) == self.present2(row as int, jj) by {
                    assert(out.cell(row as int, jj) == h2g.current.effective(jj));
                    assert(h2g.current.effective(jj) == rh.value.effective(jj));
                    assert(out.present2(row as int, jj) == h2g.current.present(jj));
                    assert(h2g.current.present(jj) == rh.value.present(jj));
                }
            }
            row += 1;
        }
        proof {
            assert forall|i: int, j: int|
                out.cell(i, j) == self.cell(i, j) && out.present2(i, j) == self.present2(
                    i,
                    j,
                ) by {
                if !(0 <= i < H) {
                    self.inner.inner.lemma_cell_stored(i, j);
                    self.inner.inner.lemma_default_elision2(i, j);
                }
            }
        }
        out
    }

    /// Totality of iteration: one full sweep of the pixel cursor yields
    /// exactly `H * W` positions, in row-major order.
    pub fn pass_positions(&self) -> (r: Vec<(usize, usize)>)
        requires
            self.wf(),
            (H as int) * (W as int) <= usize::MAX as int,
        ensures
            row_major_order::<H, W>(r@),
    {
        self.inner.pass_positions()
    }

    /// Sets every cell's color to `color`, visiting all `H * W` logical
    /// cells whether stored or not.
    pub fn fill(&mut self, color: P::ColorType) where P: PixelMutInterface
        requires
            old(self).wf(),
        ensures
            final(self).wf(),
            final(self).defv() == old(self).defv(),
            forall|i: int, j: int|
                0 <= i < H && 0 <= j < W ==> final(self).cell(i, j) == old(self).cell(
                    i,
                    j,
                ).spec_with_color(color),
            forall|i: int, j: int|
                !(0 <= i < H && 0 <= j < W) ==> final(self).cell(i, j) == old(self).cell(i, j),
    {
        let mut it = self.iter_pixels_mut();
        while it.curr_index.0 < H && it.curr_index.1 < W
            invariant
                self.wf(),
                self.defv() == old(self).defv(),
                it.curr_index.1 < W || (W == 0 && it.curr_index.1 == 0),
                it.curr_index.0 <= H,
                it.curr_index.1 == 0 || it.curr_index.0 < H,
                forall|i: int, j: int|
                    0 <= i < H && 0 <= j < W && (i < it.curr_index.0 || (i == it.curr_index.0 && j
                        < it.curr_index.1)) ==> self.cell(i, j) == old(self).cell(
                        i,
                        j,
                    ).spec_with_color(color),
                forall|i: int, j: int|
                    !(0 <= i < H && 0 <= j < W) || i > it.curr_index.0 || (i == it.curr_index.0 && j
                        >= it.curr_index.1) ==> self.cell(i, j) == old(self).cell(i, j),
            decreases (H as int) - it.curr_index.0 as int, (W as int) - it.curr_index.1 as int,
    {
            let mut h = match it.next(&self.inner) {
                Some(h) => h,
                None => {
                    proof {
                        assert(false);
                    }
                    unreached()
                },
            };
            proof {
                h.current.pixel_laws(color);
            }
            let _ = h.get_mut().update_color(color);
            proof {
                h.current.pixel_laws(color);
            }
            self.commit_pixel(h);
        }
    }
}

impl<const H: usize, const W: usize, P: PixelInterface> Default for PixelTable<H, W, P> {
    /// An empty table over the type's default pixel.
    fn default() -> (r: Self)
        ensures
            r.wf(),
            r.defv() == P::default_model(),
            r.total_filled() == 0,
            forall|i: int, j: int| r.cell(i, j) == P::default_model(),
    {
        PixelTable { inner: IllusionTable::default() }
    }
}

/// Read cursor over whole rows of a table, in increasing row order.
pub struct PixelRowsIter {
    pub row: usize,
}

impl PixelRowsIter {
    /// The next row handle, or `None` after the last row.
    pub fn next<'a, const H: usize, const W: usize, P: PixelInterface>(
        &mut self,
        table: &'a PixelTable<H, W, P>,
    ) -> (r: Option<IllusionArrayHandle<'a, IllusionArray<W, P>>>)
        requires
            table.wf(),
        ensures
            old(self).row < H ==> final(self).row == old(self).row + 1 && match r {
                Some(h) => h.index == old(self).row && h.value.wf() && h.value.defv()
                    == table.defv() && forall|c: int|
                    h.value.effective(c) == table.cell(old(self).row as int, c),
                None => false,
            },
            old(self).row >= H ==> r is None && final(self).row == old(self).row,
    {
        if self.row < H {
            let h = match table.get_row(self.row) {
                Some(h) => h,
                None => {
                    proof {
                        assert(false);
                    }
                    unreached()
                },
            };
            self.row = self.row + 1;
            Some(h)
        } else {
            None
        }
    }
}

/// Write cursor over whole rows of a table, in increasing row order.
pub struct PixelRowsIterMut {
    pub row: usize,
}

impl PixelRowsIterMut {
    /// The next row write handle, or `None` after the last row.
    pub fn next<const H: usize, const W: usize, P: PixelInterface>(
        &mut self,
        table: &mut PixelTable<H, W, P>,
    ) -> (r: Option<IllusionArrayHandleMut<IllusionArray<W, P>>>)
        requires
            old(table).wf(),
        ensures
            *final(table) == *old(table),
            old(self).row < H ==> final(self).row == old(self).row + 1 && match r {
                Some(h) => h.index == old(self).row && h.current.wf() && h.current.defv() == old(
                    table,
                ).defv() && forall|c: int|
                    h.current.effective(c) == old(table).cell(old(self).row as int, c),
                None => false,
            },
            old(self).row >= H ==> r is None && final(self).row == old(self).row,
    {
        if self.row < H {
            let h = match table.get_row_mut(self.row) {
                Some(h) => h,
                None => {
                    proof {
                        assert(false);
                    }
                    unreached()
                },
            };
            self.row = self.row + 1;
            Some(h)
        } else {
            None
        }
    }
}

} // verus!
