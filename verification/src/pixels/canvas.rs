//! Canvases: the highest level api over the pixel table, with filling,
//! flipping and flood filling built on the table's read and write handles.

use vstd::prelude::*;

use self::table::PixelTable;
use super::position::{Direction, IntoPixelStrictPosition, PixelStrictPosition};
use super::{ColorValue, PixelInterface, PixelMutInterface};

pub mod drawable;
pub mod layered;
pub mod partition;
pub mod pen;
pub mod row;
pub mod table;
pub mod templates;

verus! {

/// Interface of any read-only pixel canvas: access to its pixel table.
pub trait PixelCanvasInterface<const H: usize, const W: usize, P: PixelInterface>: Sized {
    /// The canvas's table, as a mathematical value.
    spec fn spec_table(&self) -> PixelTable<H, W, P>;

    /// A read-only reference to the underlying table.
    fn table(&self) -> (r: &PixelTable<H, W, P>)
        ensures
            *r == self.spec_table(),
    ;
}

/// Interface of any mutable pixel canvas: exclusive access to its table.
pub trait PixelCanvasMutInterface<const H: usize, const W: usize, P: PixelMutInterface>:
    PixelCanvasInterface<H, W, P> {
    /// A mutable reference to the underlying table.
    fn table_mut(&mut self) -> (r: &mut PixelTable<H, W, P>)
        ensures
            *r == old(self).spec_table(),
            final(self).spec_table() == *final(r),
    ;
}

/// A canvas owning one pixel table; the highest level api to read and write
/// pixels.
pub struct PixelCanvas<const H: usize, const W: usize, P = super::Pixel> {
    pub table: PixelTable<H, W, P>,
}

/// A canvas of optional pixels: a transparent drawing layer.
pub type MaybePixelCanvas<const H: usize, const W: usize> = PixelCanvas<H, W, super::maybe::MaybePixel>;

impl<const H: usize, const W: usize, P: PixelInterface> PixelCanvas<H, W, P> {
    /// The pixel every unstored cell reads as.
    pub open spec fn defv(&self) -> P {
        self.table.defv()
    }

    /// The effective pixel at `(r, c)`.
    pub open spec fn cell(&self, r: int, c: int) -> P {
        self.table.cell(r, c)
    }

    /// Whether the cell at `(r, c)` is physically stored.
    pub open spec fn present2(&self, r: int, c: int) -> bool {
        self.table.present2(r, c)
    }

    /// Well-formedness of the backing store.
    pub open spec fn wf(&self) -> bool {
        self.table.wf()
    }

    /// A canvas with every cell set to `color` over the type's default
    /// pixel.
    pub fn from_fill_color(color: P::ColorType) -> (r: Self) where P: PixelMutInterface
        ensures
            r.wf(),
            r.defv() == P::default_model(),
            forall|i: int, j: int|
                0 <= i < H && 0 <= j < W ==> r.cell(i, j) == P::default_model().spec_with_color(
                    color,
                ),
    {
        let mut canvas = PixelCanvas { table: PixelTable::default() };
        canvas.table.fill(color);
        canvas
    }

    /// Same as [`PixelCanvas::from_fill_color`]: a canvas filled with one
    /// color.
    pub fn new(color: P::ColorType) -> (r: Self) where P: PixelMutInterface
        ensures
            r.wf(),
            r.defv() == P::default_model(),
            forall|i: int, j: int|
                0 <= i < H && 0 <= j < W ==> r.cell(i, j) == P::default_model().spec_with_color(
                    color,
                ),
    {
        Self::from_fill_color(color)
    }

    /// A model-preserving copy of this canvas, rebuilt from its stored cells.
    pub fn duplicate(&self) -> (r: Self)
        requires
            self.wf(),
        ensures
            r.wf(),
            r.defv() == self.defv(),
            forall|i: int, j: int| r.cell(i, j) == self.cell(i, j),
            forall|i: int, j: int| r.present2(i, j) == self.present2(i, j),
    {
        PixelCanvas { table: self.table.duplicate() }
    }

    /// Mirrors the canvas around its vertical axis: afterwards column `c`
    /// holds what column `W - 1 - c` held.
    pub fn flip_x(&mut self)
        requires
            old(self).wf(),
        ensures
            final(self).wf(),
            final(self).defv() == old(self).defv(),
            forall|i: int, j: int|
                0 <= i < H && 0 <= j < W ==> final(self).cell(i, j) == old(self).cell(
                    i,
                    W as int - 1 - j,
                ),
    {
        let ghost orig = self.table.inner;
        let t = &mut self.table.inner;
        let mut row: usize = 0;
        while row < H
            invariant
                t.wf(),
                t.defv() == orig.defv(),
                row <= H,
                forall|i: int, j: int|
                    0 <= i < row && 0 <= j < W ==> t.cell(i, j) == orig.cell(
                        i,
                        W as int - 1 - j,
                    ),
                forall|i: int, j: int|
                    row <= i && 0 <= j < W ==> t.cell(i, j) == orig.cell(i, j),
            decreases H - row,
        {
            let mut col: usize = 0;
            while col < W / 2
                invariant
                    t.wf(),
                    t.defv() == orig.defv(),
                    row < H,
                    col <= W / 2,
                    forall|i: int, j: int|
                        0 <= i < row && 0 <= j < W ==> t.cell(i, j) == orig.cell(
                            i,
                            W as int - 1 - j,
                        ),
                    forall|i: int, j: int|
                        row < i && 0 <= j < W ==> t.cell(i, j) == orig.cell(i, j),
                    forall|j: int|
                        0 <= j < col || W as int - 1 - col < j < W ==> t.cell(row as int, j)
                            == orig.cell(row as int, W as int - 1 - j),
                    forall|j: int|
                        col <= j <= W as int - 1 - col ==> t.cell(row as int, j) == orig.cell(
                            row as int,
                            j,
                        ),
                decreases W / 2 - col,
            {
                let opposite_col = W - col - 1;
                t.swap((row, col), (row, opposite_col));
                col += 1;
            }
            row += 1;
        }
    }

    /// A mirrored copy of this canvas around its vertical axis.
    pub fn flipped_x(&self) -> (r: Self)
        requires
            self.wf(),
        ensures
            r.wf(),
            r.defv() == self.defv(),
            forall|i: int, j: int|
                0 <= i < H && 0 <= j < W ==> r.cell(i, j) == self.cell(i, W as int - 1 - j),
    {
        let mut canvas = self.duplicate();
        canvas.flip_x();
        canvas
    }

    /// Mirrors the canvas around its horizontal axis: afterwards row `r`
    /// holds what row `H - 1 - r` held.
    #[verifier::rlimit(100)]
    pub fn flip_y(&mut self)
        requires
            old(self).wf(),
        ensures
            final(self).wf(),
            final(self).defv() == old(self).defv(),
            forall|i: int, j: int|
                0 <= i < H && 0 <= j < W ==> final(self).cell(i, j) == old(self).cell(
                    H as int - 1 - i,
                    j,
                ),
    {
        let ghost orig = self.table.inner;
        let t = &mut self.table.inner;
        let mut row: usize = 0;
        while row < H / 2
            invariant
                t.wf(),
                t.defv() == orig.defv(),
                row <= H / 2,
                forall|i: int, j: int|
                    0 <= j < W && (0 <= i < row || H as int - 1 - row < i < H) ==> t.cell(i, j)
                        == orig.cell(H as int - 1 - i, j),
                forall|i: int, j: int|
                    0 <= j < W && row <= i <= H as int - 1 - row ==> t.cell(i, j) == orig.cell(
                        i,
                        j,
                    ),
            decreases H / 2 - row,
        {
            let opposite_row = H - row - 1;
            let mut col: usize = 0;
            while col < W
                invariant
                    t.wf(),
                    t.defv() == orig.defv(),
                    row < H / 2,
                    opposite_row == H - row - 1,
                    col <= W,
                    forall|i: int, j: int|
                        0 <= j < W && (0 <= i < row || H as int - 1 - row < i < H) ==> t.cell(
                            i,
                            j,
                        ) == orig.cell(H as int - 1 - i, j),
                    forall|j: int|
                        0 <= j < col ==> t.cell(row as int, j) == orig.cell(
                            H as int - 1 - row,
                            j,
                        ),
                    forall|j: int|
                        0 <= j < col ==> #[trigger] t.cell(H as int - 1 - row, j) == orig.cell(
                            row as int,
                            j,
                        ),
                    forall|j: int|
                        col <= j < W ==> t.cell(row as int, j) == orig.cell(row as int, j),
                    forall|j: int|
                        col <= j < W ==> #[trigger] t.cell(H as int - 1 - row, j) == orig.cell(
                            H as int - 1 - row,
                            j,
                        ),
                    forall|i: int, j: int|
                        0 <= j < W && row < i < H as int - 1 - row ==> t.cell(i, j) == orig.cell(
                            i,
                            j,
                        ),
                decreases W - col,
            {
                let ghost pre = *t;
                t.swap((row, col), (opposite_row, col));
                proof {
                    assert(opposite_row as int == H as int - 1 - row);
                }
                col += 1;
            }
            row += 1;
        }
    }

    /// A mirrored copy of this canvas around its horizontal axis.
    pub fn flipped_y(&self) -> (r: Self)
        requires
            self.wf(),
        ensures
            r.wf(),
            r.defv() == self.defv(),
            forall|i: int, j: int|
                0 <= i < H && 0 <= j < W ==> r.cell(i, j) == self.cell(H as int - 1 - i, j),
    {
        let mut canvas = self.duplicate();
        canvas.flip_y();
        canvas
    }
}

impl<const H: usize, const W: usize, P: PixelInterface> Default for PixelCanvas<H, W, P> {
    /// An empty canvas over the type's default pixel.
    fn default() -> (r: Self)
        ensures
            r.wf(),
            r.defv() == P::default_model(),
            r.table.total_filled() == 0,
            forall|i: int, j: int| r.cell(i, j) == P::default_model(),
    {
        PixelCanvas { table: PixelTable::default() }
    }
}

impl<const H: usize, const W: usize, P: PixelInterface> PixelCanvasInterface<H, W, P> for PixelCanvas<
    H,
    W,
    P,
> {
    open spec fn spec_table(&self) -> PixelTable<H, W, P> {
        self.table
    }

    fn table(&self) -> (r: &PixelTable<H, W, P>) {
        &self.table
    }
}

impl<const H: usize, const W: usize, P: PixelMutInterface> PixelCanvasMutInterface<H, W, P> for PixelCanvas<
    H,
    W,
    P,
> {
    fn table_mut(&mut self) -> (r: &mut PixelTable<H, W, P>) {
        &mut self.table
    }
}

/// Flood fill: paints `color` over the connected patch of `base_color` cells
/// around `point_inside` (base defaulting to the seed's color), spreading in
/// the four main directions.
///
/// The contract states that only cells carrying the base color may change,
/// that a changed cell is recolored to `color` and is 4-connected to the
/// seed through base-colored cells, and that a seed sitting on the base
/// color is painted; that the whole 4-connected patch is covered is not
/// stated.
pub fn fill_inside_canvas<
    const H: usize,
    const W: usize,
    P: PixelMutInterface,
    I: PixelCanvasMutInterface<H, W, P>,
    T: IntoPixelStrictPosition<H, W>,
>(
    canvas: &mut I,
    base_color: Option<P::ColorType>,
    color: P::ColorType,
    point_inside: T,
)
    requires
        old(canvas).spec_table().wf(),
        point_inside.into_wf(),
        match base_color {
            Some(b) => color != b,
            None => color != old(canvas).spec_table().cell(
                point_inside.into_row(),
                point_inside.into_column(),
            ).spec_color(),
        },
    ensures
        final(canvas).spec_table().wf(),
        final(canvas).spec_table().defv() == old(canvas).spec_table().defv(),
        forall|i: int, j: int|
            final(canvas).spec_table().cell(i, j) == old(canvas).spec_table().cell(i, j) || (old(
                canvas,
            ).spec_table().cell(i, j).spec_color() == (match base_color {
                Some(b) => b,
                None => old(canvas).spec_table().cell(
                    point_inside.into_row(),
                    point_inside.into_column(),
                ).spec_color(),
            }) && final(canvas).spec_table().cell(i, j) == old(canvas).spec_table().cell(
                i,
                j,
            ).spec_with_color(color)),
        base_color is None ==> final(canvas).spec_table().cell(
            point_inside.into_row(),
            point_inside.into_column(),
        ) == old(canvas).spec_table().cell(
            point_inside.into_row(),
            point_inside.into_column(),
        ).spec_with_color(color),
        forall|i: int, j: int|
            final(canvas).spec_table().cell(i, j) != old(canvas).spec_table().cell(i, j)
                ==> base_connected(
                old(canvas).spec_table(),
                match base_color {
                    Some(b) => b,
                    None => old(canvas).spec_table().cell(
                        point_inside.into_row(),
                        point_inside.into_column(),
                    ).spec_color(),
                },
                (point_inside.into_row(), point_inside.into_column()),
                (i, j),
            ),
{
    let seed = point_inside.into_pixel_strict_position();
    let mut stack: Vec<PixelStrictPosition<H, W>> = Vec::new();
    stack.push(seed);
    let t = canvas.table_mut();
    let base = match base_color {
        Some(b) => b,
        None => t.color_at(seed),
    };
    let ghost orig = *t;
    let ghost sr = seed.raw.row as int;
    let ghost sc = seed.raw.column as int;
    let ghost seed_on_base = base == orig.cell(sr, sc).spec_color();
    proof {
        assert(stack@[0] == seed);
    }
    while stack.len() > 0
        invariant
            t.wf(),
            t.defv() == orig.defv(),
            color != base,
            seed.wf(),
            sr == seed.raw.row as int,
            sc == seed.raw.column as int,
            seed_on_base == (base == orig.cell(sr, sc).spec_color()),
            base == (match base_color {
                Some(b) => b,
                None => orig.cell(sr, sc).spec_color(),
            }),
            forall|k: int| 0 <= k < stack@.len() ==> (#[trigger] stack@[k]).wf(),
            forall|i: int, j: int|
                t.cell(i, j) == orig.cell(i, j) || (orig.cell(i, j).spec_color() == base && t.cell(
                    i,
                    j,
                ) == orig.cell(i, j).spec_with_color(color)),
            forall|i: int, j: int|
                t.cell(i, j) != orig.cell(i, j) ==> base_connected(orig, base, (sr, sc), (i, j)),
            forall|k: int|
                0 <= k < stack@.len() ==> (#[trigger] stack@[k]) == seed || exists|nb: (int, int)|
                    #![trigger base_connected(orig, base, (sr, sc), nb)]
                    (cells_adjacent(
                        nb,
                        (stack@[k].raw.row as int, stack@[k].raw.column as int),
                    ) || nb == (stack@[k].raw.row as int, stack@[k].raw.column as int))
                        && base_connected(orig, base, (sr, sc), nb),
            seed_on_base ==> t.cell(sr, sc) == orig.cell(sr, sc).spec_with_color(color) || (t.cell(
                sr,
                sc,
            ) == orig.cell(sr, sc) && exists|k: int|
                0 <= k < stack@.len() && (#[trigger] stack@[k]) == seed),
        decreases base_count(*t, base), stack@.len(),
    {
        let ghost stack0 = stack@;
        let pos = match stack.pop() {
            Some(p) => p,
            None => {
                proof {
                    assert(false);
                }
                unreached()
            },
        };
        let ghost t_entry = *t;
        let here = t.color_at(pos);
        let here_on_base = here.eq_color(&base);
        if here_on_base {
            proof {
                t.cell(pos.raw.row as int, pos.raw.column as int).pixel_laws(color);
            }
            let _ = t.update_color_at(pos, color);
            proof {
                orig.cell(pos.raw.row as int, pos.raw.column as int).pixel_laws(color);
                lemma_count_rows_update(
                    t_entry,
                    *t,
                    base,
                    H as nat,
                    pos.raw.row as int,
                    pos.raw.column as int,
                );
                assert forall|ii: int, jj: int|
                    t.cell(ii, jj) == orig.cell(ii, jj) || (orig.cell(ii, jj).spec_color() == base
                        && t.cell(ii, jj) == orig.cell(ii, jj).spec_with_color(color)) by {
                    if ii == pos.raw.row as int && jj == pos.raw.column as int {
                        assert(here == t_entry.cell(ii, jj).spec_color());
                        assert(t.cell(ii, jj) == t_entry.cell(ii, jj).spec_with_color(color));
                        assert(here == base);
                    } else {
                        assert(t.cell(ii, jj) == t_entry.cell(ii, jj));
                    }
                }
                // The painted cell carries the base color in the original
                // table and is 4-connected to the seed.
                let pospair = (pos.raw.row as int, pos.raw.column as int);
                assert(here == t_entry.cell(pospair.0, pospair.1).spec_color());
                if t_entry.cell(pospair.0, pospair.1) != orig.cell(pospair.0, pospair.1) {
                    orig.cell(pospair.0, pospair.1).pixel_laws(color);
                    assert(here == color);
                    assert(false);
                }
                assert(orig.cell(pospair.0, pospair.1).spec_color() == base);
                if pos == seed {
                    let path0: Seq<(int, int)> = seq![(sr, sc)];
                    assert(base_path(orig, base, (sr, sc), path0));
                    assert(path0.last() == pospair);
                    assert(base_connected(orig, base, (sr, sc), pospair));
                } else {
                    assert(pos == stack0[stack0.len() - 1]);
                    let nb = choose|nb: (int, int)|
                        #![trigger base_connected(orig, base, (sr, sc), nb)]
                        (cells_adjacent(nb, pospair) || nb == pospair) && base_connected(
                            orig,
                            base,
                            (sr, sc),
                            nb,
                        );
                    if nb == pospair {
                        assert(base_connected(orig, base, (sr, sc), pospair));
                    } else {
                        let path0 = choose|path: Seq<(int, int)>|
                            base_path(orig, base, (sr, sc), path) && path.last() == nb;
                        let path1 = path0.push(pospair);
                        assert(path1[0] == path0[0]);
                        assert forall|k: int|
                            0 <= k < path1.len() implies 0 <= (#[trigger] path1[k]).0 < H && 0
                            <= path1[k].1 < W && orig.cell(path1[k].0, path1[k].1).spec_color()
                            == base by {
                            if k < path0.len() {
                                assert(path1[k] == path0[k]);
                            } else {
                                assert(path1[k] == pospair);
                            }
                        }
                        assert forall|k: int| 0 < k < path1.len() implies cells_adjacent(
                            path1[k - 1],
                            #[trigger] path1[k],
                        ) by {
                            if k < path0.len() {
                                assert(path1[k] == path0[k] && path1[k - 1] == path0[k - 1]);
                            } else {
                                assert(path1[k] == pospair && path1[k - 1] == path0[k - 1]);
                                assert(path0[k - 1] == path0.last());
                            }
                        }
                        assert(base_path(orig, base, (sr, sc), path1));
                        assert(path1.last() == pospair);
                        assert(base_connected(orig, base, (sr, sc), pospair));
                    }
                }
                assert forall|ii: int, jj: int|
                    t.cell(ii, jj) != orig.cell(ii, jj) implies base_connected(
                    orig,
                    base,
                    (sr, sc),
                    (ii, jj),
                ) by {
                    if !(ii == pospair.0 && jj == pospair.1) {
                        assert(t.cell(ii, jj) == t_entry.cell(ii, jj));
                    }
                }
            }
            let ghost pospair = (pos.raw.row as int, pos.raw.column as int);
            if let Ok(p) = pos.checked_direction(Direction::Up, 1) {
                stack.push(p);
                proof {
                    assert(cells_adjacent(pospair, (p.raw.row as int, p.raw.column as int))
                        || pospair == (p.raw.row as int, p.raw.column as int));
                }
            }
            if let Ok(p) = pos.checked_direction(Direction::Right, 1) {
                stack.push(p);
                proof {
                    assert(cells_adjacent(pospair, (p.raw.row as int, p.raw.column as int))
                        || pospair == (p.raw.row as int, p.raw.column as int));
                }
            }
            if let Ok(p) = pos.checked_direction(Direction::Down, 1) {
                stack.push(p);
                proof {
                    assert(cells_adjacent(pospair, (p.raw.row as int, p.raw.column as int))
                        || pospair == (p.raw.row as int, p.raw.column as int));
                }
            }
            if let Ok(p) = pos.checked_direction(Direction::Left, 1) {
                stack.push(p);
                proof {
                    assert(cells_adjacent(pospair, (p.raw.row as int, p.raw.column as int))
                        || pospair == (p.raw.row as int, p.raw.column as int));
                }
            }
            proof {
                if seed_on_base {
                    orig.cell(sr, sc).pixel_laws(color);
                    if pos.raw.row as int == sr && pos.raw.column as int == sc {
                        // The seed itself was just painted.
                        assert(t.cell(sr, sc) == t_entry.cell(sr, sc).spec_with_color(color));
                    } else {
                        assert(t.cell(sr, sc) == t_entry.cell(sr, sc));
                        if t_entry.cell(sr, sc) == orig.cell(sr, sc) && t_entry.cell(sr, sc)
                            != orig.cell(sr, sc).spec_with_color(color) {
                            let k = choose|k: int|
                                0 <= k < stack0.len() && (#[trigger] stack0[k]) == seed;
                            if k == stack0.len() - 1 {
                                assert(pos == seed);
                                assert(false);
                            } else {
                                assert(stack@[k] == seed);
                            }
                        }
                    }
                }
            }
        } else {
            proof {
                if seed_on_base {
                    orig.cell(sr, sc).pixel_laws(color);
                    if t_entry.cell(sr, sc) == orig.cell(sr, sc) && t_entry.cell(sr, sc)
                        != orig.cell(sr, sc).spec_with_color(color) {
                        let k = choose|k: int|
                            0 <= k < stack0.len() && (#[trigger] stack0[k]) == seed;
                        if k == stack0.len() - 1 {
                            // The popped cell was the unpainted seed, yet its
                            // color is the base color, so it cannot have been
                            // skipped.
                            assert(pos == seed);
                            assert(pos.raw.row as int == sr && pos.raw.column as int == sc);
                            assert(here == t_entry.cell(
                                pos.raw.row as int,
                                pos.raw.column as int,
                            ).spec_color());
                            assert(t_entry.cell(pos.raw.row as int, pos.raw.column as int)
                                == t_entry.cell(sr, sc));
                            assert(here == base);
                            assert(false);
                        } else {
                            assert(stack@[k] == seed);
                        }
                    }
                }
            }
        }
    }
    proof {
        if base_color is None {
            assert(seed_on_base);
            orig.cell(sr, sc).pixel_laws(color);
        }
    }
}

/// Whether two cells share an edge.
pub open spec fn cells_adjacent(a: (int, int), b: (int, int)) -> bool {
    ||| (a.0 == b.0 && (a.1 == b.1 + 1 || a.1 + 1 == b.1))
    ||| (a.1 == b.1 && (a.0 == b.0 + 1 || a.0 + 1 == b.0))
}

/// A 4-connected path from the seed, every cell in bounds and carrying the
/// base color.
pub open spec fn base_path<const H: usize, const W: usize, P: PixelMutInterface>(
    t0: PixelTable<H, W, P>,
    base: P::ColorType,
    seed: (int, int),
    path: Seq<(int, int)>,
) -> bool {
    &&& path.len() > 0
    &&& path[0] == seed
    &&& forall|k: int|
        0 <= k < path.len() ==> 0 <= (#[trigger] path[k]).0 < H && 0 <= path[k].1 < W
    &&& forall|k: int|
        0 <= k < path.len() ==> t0.cell((#[trigger] path[k]).0, path[k].1).spec_color() == base
    &&& forall|k: int| 0 < k < path.len() ==> cells_adjacent(path[k - 1], #[trigger] path[k])
}

/// Whether a cell can be reached from the seed through base-colored cells.
pub open spec fn base_connected<const H: usize, const W: usize, P: PixelMutInterface>(
    t0: PixelTable<H, W, P>,
    base: P::ColorType,
    seed: (int, int),
    cell: (int, int),
) -> bool {
    exists|path: Seq<(int, int)>| base_path(t0, base, seed, path) && path.last() == cell
}

/// Number of cells in columns `0..w` of row `i` whose color is `base`.
pub open spec fn base_count_row<const H: usize, const W: usize, P: PixelInterface>(
    t: PixelTable<H, W, P>,
    base: P::ColorType,
    i: int,
    w: nat,
) -> nat
    decreases w,
{
    if w == 0 {
        0
    } else {
        base_count_row(t, base, i, (w - 1) as nat) + if t.cell(i, w as int - 1).spec_color()
            == base {
            1nat
        } else {
            0nat
        }
    }
}

/// Number of cells in rows `0..h` whose color is `base`.
pub open spec fn base_count_rows<const H: usize, const W: usize, P: PixelInterface>(
    t: PixelTable<H, W, P>,
    base: P::ColorType,
    h: nat,
) -> nat
    decreases h,
{
    if h == 0 {
        0
    } else {
        base_count_rows(t, base, (h - 1) as nat) + base_count_row(t, base, h as int - 1, W as nat)
    }
}

/// Number of in-bounds cells whose color is `base`: the measure that shrinks
/// with every painted cell, so flood filling terminates.
pub open spec fn base_count<const H: usize, const W: usize, P: PixelInterface>(
    t: PixelTable<H, W, P>,
    base: P::ColorType,
) -> nat {
    base_count_rows(t, base, H as nat)
}

/// Painting one `base` cell with another color lowers the row's count by one
/// and leaves other rows' counts alone.
proof fn lemma_count_row_update<const H: usize, const W: usize, P: PixelInterface>(
    t1: PixelTable<H, W, P>,
    t2: PixelTable<H, W, P>,
    base: P::ColorType,
    i: int,
    w: nat,
    r: int,
    c: int,
)
    requires
        forall|j: int| !(i == r && j == c) ==> t2.cell(i, j) == t1.cell(i, j),
        t1.cell(r, c).spec_color() == base,
        t2.cell(r, c).spec_color() != base,
    ensures
        base_count_row(t2, base, i, w) as int == base_count_row(t1, base, i, w) as int - (if i == r
            && 0 <= c < w {
            1int
        } else {
            0int
        }),
    decreases w,
{
    if w > 0 {
        lemma_count_row_update(t1, t2, base, i, (w - 1) as nat, r, c);
    }
}

/// Painting one `base` cell with another color lowers the table's count by
/// one.
proof fn lemma_count_rows_update<const H: usize, const W: usize, P: PixelInterface>(
    t1: PixelTable<H, W, P>,
    t2: PixelTable<H, W, P>,
    base: P::ColorType,
    h: nat,
    r: int,
    c: int,
)
    requires
        forall|i: int, j: int| !(i == r && j == c) ==> t2.cell(i, j) == t1.cell(i, j),
        t1.cell(r, c).spec_color() == base,
        t2.cell(r, c).spec_color() != base,
    ensures
        base_count_rows(t2, base, h) as int == base_count_rows(t1, base, h) as int - (if 0 <= r < h
            && 0 <= c < W {
            1int
        } else {
            0int
        }),
    decreases h,
{
    if h > 0 {
        lemma_count_rows_update(t1, t2, base, (h - 1) as nat, r, c);
        lemma_count_row_update(t1, t2, base, h as int - 1, W as nat, r, c);
    }
}



/// Read extensions every canvas gets: color lookups.
pub trait SharedPixelCanvasExt<const H: usize, const W: usize, P: PixelInterface>:
    PixelCanvasInterface<H, W, P> {
    /// The effective color at `pos`.
    fn color_at<T: IntoPixelStrictPosition<H, W>>(&self, pos: T) -> (c: P::ColorType)
        requires
            self.spec_table().wf(),
            pos.into_wf(),
        ensures
            c == self.spec_table().cell(pos.into_row(), pos.into_column()).spec_color(),
    {
        self.table().color_at(pos)
    }
}

impl<const H: usize, const W: usize, T, P: PixelInterface> SharedPixelCanvasExt<H, W, P> for T where
    T: PixelCanvasInterface<H, W, P>
 {
}

/// Write extensions every mutable canvas gets: filling, clearing, targeted
/// color updates, flood filling and drawing.
pub trait SharedMutPixelCanvasExt<const H: usize, const W: usize, P: PixelMutInterface>:
    PixelCanvasMutInterface<H, W, P> {
    /// Sets every cell's color to `color`.
    fn fill(&mut self, color: P::ColorType)
        requires
            old(self).spec_table().wf(),
        ensures
            final(self).spec_table().wf(),
            final(self).spec_table().defv() == old(self).spec_table().defv(),
            forall|i: int, j: int|
                0 <= i < H && 0 <= j < W ==> final(self).spec_table().cell(i, j) == old(self).spec_table().cell(i, j).spec_with_color(color),
            forall|i: int, j: int|
                !(0 <= i < H && 0 <= j < W) ==> final(self).spec_table().cell(i, j) == old(self).spec_table().cell(i, j),
    {
        self.table_mut().fill(color)
    }

    /// Sets every cell back to the default color.
    fn clear(&mut self)
        requires
            old(self).spec_table().wf(),
        ensures
            final(self).spec_table().wf(),
            final(self).spec_table().defv() == old(self).spec_table().defv(),
            forall|i: int, j: int|
                0 <= i < H && 0 <= j < W ==> final(self).spec_table().cell(i, j) == old(self).spec_table().cell(i, j).spec_with_color(P::ColorType::spec_default_color()),
            forall|i: int, j: int|
                !(0 <= i < H && 0 <= j < W) ==> final(self).spec_table().cell(i, j) == old(self).spec_table().cell(i, j),
    {
        let c = P::ColorType::default_color();
        self.table_mut().fill(c)
    }

    /// Replaces the color of the pixel at `pos`, returning the previous one.
    fn update_color_at<T: IntoPixelStrictPosition<H, W>>(&mut self, pos: T, color: P::ColorType) -> (prev:
        P::ColorType)
        requires
            old(self).spec_table().wf(),
            pos.into_wf(),
        ensures
            final(self).spec_table().wf(),
            final(self).spec_table().defv() == old(self).spec_table().defv(),
            prev == old(self).spec_table().cell(pos.into_row(), pos.into_column()).spec_color(),
            final(self).spec_table().cell(pos.into_row(), pos.into_column()) == old(self).spec_table().cell(pos.into_row(), pos.into_column()).spec_with_color(color),
            forall|i: int, j: int|
                !(i == pos.into_row() && j == pos.into_column()) ==> final(self).spec_table().cell(
                    i,
                    j,
                ) == old(self).spec_table().cell(i, j),
    {
        self.table_mut().update_color_at(pos, color)
    }

    /// Flood fill: paints `color` over the connected patch of same-colored
    /// cells around `point_inside`. Only cells carrying the seed's color may
    /// change, and the seed itself is painted.
    fn fill_inside<T: IntoPixelStrictPosition<H, W>>(&mut self, color: P::ColorType, point_inside: T)
        requires
            old(self).spec_table().wf(),
            point_inside.into_wf(),
            color != old(self).spec_table().cell(
                point_inside.into_row(),
                point_inside.into_column(),
            ).spec_color(),
        ensures
            final(self).spec_table().wf(),
            final(self).spec_table().defv() == old(self).spec_table().defv(),
            forall|i: int, j: int|
                final(self).spec_table().cell(i, j) == old(self).spec_table().cell(i, j) || (old(
                    self,
                ).spec_table().cell(i, j).spec_color() == old(self).spec_table().cell(
                    point_inside.into_row(),
                    point_inside.into_column(),
                ).spec_color() && final(self).spec_table().cell(i, j) == old(self).spec_table().cell(
                    i,
                    j,
                ).spec_with_color(color)),
            final(self).spec_table().cell(point_inside.into_row(), point_inside.into_column())
                == old(self).spec_table().cell(
                point_inside.into_row(),
                point_inside.into_column(),
            ).spec_with_color(color),
            forall|i: int, j: int|
                final(self).spec_table().cell(i, j) != old(self).spec_table().cell(i, j)
                    ==> base_connected(
                    old(self).spec_table(),
                    old(self).spec_table().cell(
                        point_inside.into_row(),
                        point_inside.into_column(),
                    ).spec_color(),
                    (point_inside.into_row(), point_inside.into_column()),
                    (i, j),
                ),
    {
        fill_inside_canvas(self, None, color, point_inside)
    }

    /// Draws `drawable` on this canvas with its top left corner at
    /// `start_pos`.
    fn draw<
        const HD: usize,
        const WD: usize,
        MP: PixelInterface,
        D: crate::pixels::canvas::drawable::Drawable<HD, WD, MP>,
        T: IntoPixelStrictPosition<H, W>,
    >(&mut self, start_pos: T, drawable: D)
        requires
            drawable.spec_source().wf(),
            old(self).spec_table().wf(),
            start_pos.into_wf(),
        ensures
            final(self).spec_table().wf(),
            final(self).spec_table().defv() == old(self).spec_table().defv(),
            forall|i: int, j: int|
                0 <= i < H && 0 <= j < W ==> final(self).spec_table().cell(i, j)
                    == crate::pixels::canvas::drawable::drawn_cell(
                    drawable.spec_source(),
                    start_pos.into_row(),
                    start_pos.into_column(),
                    old(self).spec_table().cell(i, j),
                    i,
                    j,
                ),
            forall|i: int, j: int|
                !(0 <= i < H && 0 <= j < W) ==> final(self).spec_table().cell(i, j) == old(self).spec_table().cell(i, j),
    {
        drawable.draw_on(start_pos, self)
    }

    /// Draws a same-sized `drawable` on this canvas.
    fn draw_exact<
        MP: PixelInterface,
        D: crate::pixels::canvas::drawable::Drawable<H, W, MP>,
        T: IntoPixelStrictPosition<H, W>,
    >(&mut self, start_pos: T, drawable: D)
        requires
            drawable.spec_source().wf(),
            old(self).spec_table().wf(),
            start_pos.into_wf(),
        ensures
            final(self).spec_table().wf(),
            final(self).spec_table().defv() == old(self).spec_table().defv(),
            forall|i: int, j: int|
                0 <= i < H && 0 <= j < W ==> final(self).spec_table().cell(i, j)
                    == crate::pixels::canvas::drawable::drawn_cell(
                    drawable.spec_source(),
                    start_pos.into_row(),
                    start_pos.into_column(),
                    old(self).spec_table().cell(i, j),
                    i,
                    j,
                ),
            forall|i: int, j: int|
                !(0 <= i < H && 0 <= j < W) ==> final(self).spec_table().cell(i, j) == old(self).spec_table().cell(i, j),
    {
        drawable.draw_on_exact(start_pos, self)
    }

    /// Draws a same-sized `drawable` starting at the top left corner.
    fn draw_exact_abs<MP: PixelInterface, D: crate::pixels::canvas::drawable::Drawable<H, W, MP>>(
        &mut self,
        drawable: D,
    )
        requires
            drawable.spec_source().wf(),
            old(self).spec_table().wf(),
            H >= 1,
            W >= 1,
        ensures
            final(self).spec_table().wf(),
            final(self).spec_table().defv() == old(self).spec_table().defv(),
            forall|i: int, j: int|
                0 <= i < H && 0 <= j < W ==> final(self).spec_table().cell(i, j)
                    == crate::pixels::canvas::drawable::drawn_cell(
                    drawable.spec_source(),
                    0,
                    0,
                    old(self).spec_table().cell(i, j),
                    i,
                    j,
                ),
            forall|i: int, j: int|
                !(0 <= i < H && 0 <= j < W) ==> final(self).spec_table().cell(i, j) == old(self).spec_table().cell(i, j),
    {
        drawable.draw_on_exact_abs(self)
    }
}

impl<const H: usize, const W: usize, T, P: PixelMutInterface> SharedMutPixelCanvasExt<H, W, P> for T where
    T: PixelCanvasMutInterface<H, W, P>
 {
}

/// Read extensions for canvases of always-colored pixels.
pub trait PixelCanvasExt<const H: usize, const W: usize>: SharedPixelCanvasExt<
    H,
    W,
    super::Pixel,
> {
}

impl<const H: usize, const W: usize, T> PixelCanvasExt<H, W> for T where T: PixelCanvasInterface<
    H,
    W,
    super::Pixel,
> {
}

/// Write extensions for canvases of always-colored pixels.
pub trait PixelCanvasMutExt<const H: usize, const W: usize>: SharedMutPixelCanvasExt<
    H,
    W,
    super::Pixel,
> {
}

impl<const H: usize, const W: usize, T> PixelCanvasMutExt<H, W> for T where
    T: PixelCanvasMutInterface<H, W, super::Pixel>
 {
}

} // verus!
