//! A movable window over a canvas: a small canvas of its own that can read
//! the cells under it, be edited freely, and write itself back.
//!
//! A partition cell `(r, c)` sits over source cell
//! `(start_row + c, start_col + r)`: the walk that pairs the two goes right
//! by the row offset and down by the column offset.

use vstd::prelude::*;

use super::table::PixelTable;
use super::{PixelCanvasInterface, PixelCanvasMutInterface};
use crate::pixels::maybe::MaybePixel;
use crate::pixels::position::{IntoPixelStrictPosition, PixelPosition, PixelStrictPosition};
use crate::pixels::{ColorValue, PixelInterface, PixelMutInterface};

verus! {

/// A rectangular range of strict positions, from a top left corner to a
/// bottom right one.
pub struct BoxIndicator<const H: usize, const W: usize> {
    pub top_left: PixelStrictPosition<H, W>,
    pub bottom_right: PixelStrictPosition<H, W>,
}

impl<const H: usize, const W: usize> BoxIndicator<H, W> {
    /// The box is a well-formed, non-empty range.
    pub open spec fn wf(&self) -> bool {
        &&& self.top_left.wf()
        &&& self.bottom_right.wf()
        &&& self.top_left.raw.row <= self.bottom_right.raw.row
        &&& self.top_left.raw.column <= self.bottom_right.raw.column
    }

    /// A box from its two corners.
    pub fn new<A: IntoPixelStrictPosition<H, W>, B: IntoPixelStrictPosition<H, W>>(
        top_left: A,
        bottom_right: B,
    ) -> (r: Self)
        requires
            top_left.into_wf(),
            bottom_right.into_wf(),
            top_left.into_row() <= bottom_right.into_row(),
            top_left.into_column() <= bottom_right.into_column(),
        ensures
            r.wf(),
            r.top_left.raw.row as int == top_left.into_row(),
            r.top_left.raw.column as int == top_left.into_column(),
            r.bottom_right.raw.row as int == bottom_right.into_row(),
            r.bottom_right.raw.column as int == bottom_right.into_column(),
    {
        BoxIndicator {
            top_left: top_left.into_pixel_strict_position(),
            bottom_right: bottom_right.into_pixel_strict_position(),
        }
    }

    /// A fresh cursor over the positions of the box, row-major.
    pub fn into_iter(self) -> (r: BoxIndicatorIter<H, W>)
        requires
            self.wf(),
        ensures
            r.wf(),
            r.indicator.top_left == self.top_left,
            r.indicator.bottom_right == self.bottom_right,
            r.current is None,
    {
        BoxIndicatorIter { indicator: self, current: None }
    }
}

/// Cursor over the positions of a box, row-major within the box.
pub struct BoxIndicatorIter<const H: usize, const W: usize> {
    pub indicator: BoxIndicator<H, W>,
    pub current: Option<PixelStrictPosition<H, W>>,
}

impl<const H: usize, const W: usize> BoxIndicatorIter<H, W> {
    /// The cursor stays inside its box.
    pub open spec fn wf(&self) -> bool {
        &&& self.indicator.wf()
        &&& match self.current {
            Some(p) => {
                &&& p.wf()
                &&& self.indicator.top_left.raw.row <= p.raw.row <= self.indicator.bottom_right.raw.row
                &&& self.indicator.top_left.raw.column <= p.raw.column
                    <= self.indicator.bottom_right.raw.column
            },
            None => true,
        }
    }

    /// The next position of the box, or `None` after the bottom right corner.
    pub fn next(&mut self) -> (r: Option<PixelStrictPosition<H, W>>)
        requires
            old(self).wf(),
        ensures
            final(self).wf(),
            final(self).indicator == old(self).indicator,
            match old(self).current {
                None => r == Some(old(self).indicator.top_left) && final(self).current == r,
                Some(cur) => {
                    if cur.raw.column == old(self).indicator.bottom_right.raw.column {
                        if cur.raw.row == old(self).indicator.bottom_right.raw.row {
                            r is None && final(self).current == old(self).current
                        } else {
                            r == Some(
                                PixelStrictPosition::<H, W> {
                                    raw: crate::pixels::position::PixelPosition {
                                        row: (cur.raw.row + 1) as usize,
                                        column: old(self).indicator.top_left.raw.column,
                                    },
                                },
                            ) && final(self).current == r
                        }
                    } else {
                        r == Some(
                            PixelStrictPosition::<H, W> {
                                raw: crate::pixels::position::PixelPosition {
                                    row: cur.raw.row,
                                    column: (cur.raw.column + 1) as usize,
                                },
                            },
                        ) && final(self).current == r
                    }
                },
            },
    {
        match self.current {
            Some(current) => {
                if current.raw.column == self.indicator.bottom_right.raw.column {
                    if current.raw.row == self.indicator.bottom_right.raw.row {
                        return None;
                    }
                    self.current = Some(
                        PixelStrictPosition {
                            raw: crate::pixels::position::PixelPosition {
                                row: current.raw.row + 1,
                                column: self.indicator.top_left.raw.column,
                            },
                        },
                    );
                } else {
                    self.current = Some(
                        PixelStrictPosition {
                            raw: crate::pixels::position::PixelPosition {
                                row: current.raw.row,
                                column: current.raw.column + 1,
                            },
                        },
                    );
                }
                self.current
            },
            None => {
                self.current = Some(self.indicator.top_left);
                self.current
            },
        }
    }
}

/// The source cell a partition cell `(r, c)` sits over when the partition is
/// anchored at `(start_row, start_col)`.
pub open spec fn partition_source_row(start_row: int, c: int) -> int {
    start_row + c
}

/// The source column a partition cell `(r, c)` sits over.
pub open spec fn partition_source_col(start_col: int, r: int) -> int {
    start_col + r
}

/// What reading the source leaves in partition cell `(r, c)`: the default
/// partition pixel recolored with the converted source color when the mapped
/// source cell exists and its color converts.
pub open spec fn read_cell<
    const SH: usize,
    const SW: usize,
    SP: PixelInterface,
    MP: PixelMutInterface,
>(src: PixelTable<SH, SW, SP>, start_row: int, start_col: int, r: int, c: int) -> MP {
    let i = partition_source_row(start_row, c);
    let j = partition_source_col(start_col, r);
    if 0 <= i < SH && 0 <= j < SW {
        match MP::ColorType::spec_from_maybe(src.cell(i, j).spec_color().spec_to_maybe()) {
            Some(cc) => MP::default_model().spec_with_color(cc),
            None => MP::default_model(),
        }
    } else {
        MP::default_model()
    }
}

/// What writing the window back leaves at source cell `(i, j)`: the old
/// pixel recolored with the converted color of the partition cell over it,
/// when that cell exists, carries a color and the color converts.
pub open spec fn written_source_cell<
    const MH: usize,
    const MW: usize,
    const SH: usize,
    const SW: usize,
    MP: PixelInterface,
    SP: PixelMutInterface,
>(part: PixelTable<MH, MW, MP>, start_row: int, start_col: int, old_cell: SP, i: int, j: int) -> SP {
    let r = j - start_col;
    let c = i - start_row;
    if 0 <= i < SH && 0 <= j < SW && 0 <= r < MH && 0 <= c < MW && part.cell(r, c).spec_has_color() {
        match SP::ColorType::spec_from_maybe(part.cell(r, c).spec_color().spec_to_maybe()) {
            Some(cc) => old_cell.spec_with_color(cc),
            None => old_cell,
        }
    } else {
        old_cell
    }
}

/// What one write leaves at a snapshot cell, given the partition cell over
/// it and the source cell it replaced: the old snapshot pixel recolored with
/// the replaced source color, exactly when the write happened and the source
/// color converts back.
pub open spec fn snapshot_cell_value<MP: PixelInterface, SP: PixelMutInterface>(
    part_cell: MP,
    src_cell: SP,
    old_snap_cell: MP,
    in_window: bool,
) -> MP {
    if in_window && part_cell.spec_has_color() {
        match SP::ColorType::spec_from_maybe(part_cell.spec_color().spec_to_maybe()) {
            Some(_) => match MP::ColorType::spec_from_maybe(
                src_cell.spec_color().spec_to_maybe(),
            ) {
                Some(sc) => old_snap_cell.spec_with_color(sc),
                None => old_snap_cell,
            },
            None => old_snap_cell,
        }
    } else {
        old_snap_cell
    }
}

/// What writing the window back leaves at snapshot cell `(r, c)`: the old
/// snapshot pixel recolored with the replaced source color, exactly when the
/// paired source cell was written and the source color converts back.
pub open spec fn snapshot_cell<
    const MH: usize,
    const MW: usize,
    const SH: usize,
    const SW: usize,
    MP: PixelInterface,
    SP: PixelMutInterface,
>(
    part: PixelTable<MH, MW, MP>,
    src: PixelTable<SH, SW, SP>,
    start_row: int,
    start_col: int,
    old_snap_cell: MP,
    r: int,
    c: int,
) -> MP {
    let i = start_row + c;
    let j = start_col + r;
    snapshot_cell_value::<MP, SP>(
        part.cell(r, c),
        src.cell(i, j),
        old_snap_cell,
        0 <= r < MH && 0 <= c < MW && 0 <= i < SH && 0 <= j < SW,
    )
}

/// What recoloring the window leaves at source cell `(i, j)`: cells under a
/// colored partition cell take the chosen color, or their snapshot color
/// back when no color is given and the snapshot color converts.
pub open spec fn recolored_source_cell<
    const MH: usize,
    const MW: usize,
    const SH: usize,
    const SW: usize,
    MP: PixelInterface,
    SP: PixelMutInterface,
>(
    part: PixelTable<MH, MW, MP>,
    snap: PixelTable<MH, MW, MP>,
    start_row: int,
    start_col: int,
    chosen: Option<SP::ColorType>,
    old_cell: SP,
    i: int,
    j: int,
) -> SP {
    let r = j - start_col;
    let c = i - start_row;
    if 0 <= i < SH && 0 <= j < SW && 0 <= r < MH && 0 <= c < MW && part.cell(r, c).spec_has_color() {
        match chosen {
            Some(cc) => old_cell.spec_with_color(cc),
            None => match SP::ColorType::spec_from_maybe(
                snap.cell(r, c).spec_color().spec_to_maybe(),
            ) {
                Some(cc) => old_cell.spec_with_color(cc),
                None => old_cell,
            },
        }
    } else {
        old_cell
    }
}

/// A window of `MH` by `MW` cells anchored over a larger `SH` by `SW`
/// canvas: its own editable table, plus a snapshot of the source colors the
/// last write replaced.
pub struct CanvasPartition<
    const MH: usize,
    const MW: usize,
    const SH: usize,
    const SW: usize,
    MP = MaybePixel,
> {
    pub position: PixelStrictPosition<SH, SW>,
    pub partition_table: PixelTable<MH, MW, MP>,
    pub partition_snapshot_table: PixelTable<MH, MW, MP>,
}

impl<
    const MH: usize,
    const MW: usize,
    const SH: usize,
    const SW: usize,
    MP: PixelMutInterface,
> CanvasPartition<MH, MW, SH, SW, MP> {
    /// Both tables are well-formed and the anchor is in bounds.
    pub open spec fn wf(&self) -> bool {
        &&& self.position.wf()
        &&& self.partition_table.wf()
        &&& self.partition_snapshot_table.wf()
    }

    /// Reads the window under `position` on `source` into a fresh table.
    fn read_source_table<SP: PixelInterface, C: PixelCanvasInterface<SH, SW, SP>>(
        source: &C,
        position: PixelStrictPosition<SH, SW>,
    ) -> (r: PixelTable<MH, MW, MP>)
        requires
            source.spec_table().wf(),
            position.wf(),
        ensures
            r.wf(),
            r.defv() == MP::default_model(),
            forall|rr: int, cc: int|
                0 <= rr < MH && 0 <= cc < MW ==> r.cell(rr, cc) == read_cell::<SH, SW, SP, MP>(
                    source.spec_table(),
                    position.raw.row as int,
                    position.raw.column as int,
                    rr,
                    cc,
                ),
    {
        let start_row = position.raw.row;
        let start_col = position.raw.column;
        let mut t: PixelTable<MH, MW, MP> = PixelTable::default();
        let src = source.table();
        let mut r: usize = 0;
        while r < MH
            invariant
                src.wf(),
                *src == source.spec_table(),
                t.wf(),
                t.defv() == MP::default_model(),
                r <= MH,
                start_row < SH,
                start_col < SW,
                start_row as int == position.raw.row as int,
                start_col as int == position.raw.column as int,
                forall|rr: int, cc: int|
                    0 <= rr < r && 0 <= cc < MW ==> t.cell(rr, cc) == read_cell::<SH, SW, SP, MP>(
                        *src,
                        start_row as int,
                        start_col as int,
                        rr,
                        cc,
                    ),
                forall|rr: int, cc: int|
                    rr >= r || !(0 <= rr < MH && 0 <= cc < MW) ==> t.cell(rr, cc)
                        == MP::default_model(),
            decreases MH - r,
        {
            let mut c: usize = 0;
            while c < MW
                invariant
                    src.wf(),
                    *src == source.spec_table(),
                    t.wf(),
                    t.defv() == MP::default_model(),
                    r < MH,
                    c <= MW,
                    start_row < SH,
                    start_col < SW,
                    start_row as int == position.raw.row as int,
                    start_col as int == position.raw.column as int,
                    forall|rr: int, cc: int|
                        (0 <= rr < r && 0 <= cc < MW) || (rr == r && 0 <= cc < c) ==> t.cell(rr, cc)
                            == read_cell::<SH, SW, SP, MP>(
                            *src,
                            start_row as int,
                            start_col as int,
                            rr,
                            cc,
                        ),
                    forall|rr: int, cc: int|
                        rr > r || (rr == r && cc >= c) || !(0 <= rr < MH && 0 <= cc < MW)
                            ==> t.cell(rr, cc) == MP::default_model(),
                decreases MW - c,
            {
                if c < SH - start_row && r < SW - start_col {
                    let i = start_row + c;
                    let j = start_col + r;
                    let src_handle = match src.inner.get((i, j)) {
                        Some(h) => h,
                        None => {
                            proof {
                                assert(false);
                            }
                            unreached()
                        },
                    };
                    proof {
                        src_handle.value.pixel_laws(src_handle.value.spec_color());
                    }
                    let m = src_handle.value.color().to_maybe();
                    match MP::ColorType::from_maybe(m) {
                        Some(cc) => {
                            let _ = t.update_color_at((r, c), cc);
                        },
                        None => {},
                    }
                }
                c += 1;
            }
            r += 1;
        }
        t
    }

    /// A partition anchored at `position`, primed with the source cells
    /// under it.
    pub fn new<SP: PixelInterface, C: PixelCanvasInterface<SH, SW, SP>, T: IntoPixelStrictPosition<
        SH,
        SW,
    >>(position: T, source: &C) -> (r: Self)
        requires
            source.spec_table().wf(),
            position.into_wf(),
        ensures
            r.wf(),
            r.position.raw.row as int == position.into_row(),
            r.position.raw.column as int == position.into_column(),
            r.partition_table.defv() == MP::default_model(),
            forall|rr: int, cc: int|
                0 <= rr < MH && 0 <= cc < MW ==> r.partition_table.cell(rr, cc) == read_cell::<
                    SH,
                    SW,
                    SP,
                    MP,
                >(
                    source.spec_table(),
                    position.into_row(),
                    position.into_column(),
                    rr,
                    cc,
                ),
            r.partition_snapshot_table.defv() == MP::default_model(),
            r.partition_snapshot_table.total_filled() == 0,
            forall|rr: int, cc: int|
                r.partition_snapshot_table.cell(rr, cc) == MP::default_model(),
    {
        let start_position = position.into_pixel_strict_position();
        CanvasPartition {
            partition_table: Self::read_source_table(source, start_position),
            position: start_position,
            partition_snapshot_table: PixelTable::default(),
        }
    }

    /// Re-reads the source cells under the current position into the
    /// partition table.
    pub fn read_source<SP: PixelInterface, C: PixelCanvasInterface<SH, SW, SP>>(
        &mut self,
        source: &C,
    )
        requires
            old(self).wf(),
            source.spec_table().wf(),
        ensures
            final(self).wf(),
            final(self).position == old(self).position,
            final(self).partition_snapshot_table == old(self).partition_snapshot_table,
            forall|rr: int, cc: int|
                0 <= rr < MH && 0 <= cc < MW ==> final(self).partition_table.cell(rr, cc)
                    == read_cell::<SH, SW, SP, MP>(
                    source.spec_table(),
                    old(self).position.raw.row as int,
                    old(self).position.raw.column as int,
                    rr,
                    cc,
                ),
    {
        self.partition_table = Self::read_source_table(source, self.position);
    }

    /// Writes the colored partition cells back onto the source, remembering
    /// the colors they replace in the snapshot table: each source cell under
    /// a colored, convertible partition cell receives the converted color,
    /// every other source cell is untouched, and the snapshot records the
    /// replaced source colors.
    pub fn write_source<SP: PixelMutInterface, C: PixelCanvasMutInterface<SH, SW, SP>>(
        &mut self,
        source: &mut C,
    )
        requires
            old(self).wf(),
            old(source).spec_table().wf(),
        ensures
            final(self).wf(),
            final(self).position == old(self).position,
            final(self).partition_table == old(self).partition_table,
            final(source).spec_table().wf(),
            final(source).spec_table().defv() == old(source).spec_table().defv(),
            forall|i: int, j: int|
                final(source).spec_table().cell(i, j) == written_source_cell::<MH, MW, SH, SW, MP, SP>(
                    old(self).partition_table,
                    old(self).position.raw.row as int,
                    old(self).position.raw.column as int,
                    old(source).spec_table().cell(i, j),
                    i,
                    j,
                ),
            forall|r: int, c: int|
                final(self).partition_snapshot_table.cell(r, c) == snapshot_cell::<
                    MH,
                    MW,
                    SH,
                    SW,
                    MP,
                    SP,
                >(
                    old(self).partition_table,
                    old(source).spec_table(),
                    old(self).position.raw.row as int,
                    old(self).position.raw.column as int,
                    old(self).partition_snapshot_table.cell(r, c),
                    r,
                    c,
                ),
    {
        let start_row = self.position.raw.row;
        let start_col = self.position.raw.column;
        let src = source.table_mut();
        let ghost orig = *src;
        let ghost part0 = self.partition_table;
        let ghost snap0 = self.partition_snapshot_table;
        let mut r: usize = 0;
        while r < MH
            invariant
                self.wf(),
                self.partition_table == part0,
                self.position == old(self).position,
                part0 == old(self).partition_table,
                snap0 == old(self).partition_snapshot_table,
                start_row as int == old(self).position.raw.row as int,
                start_col as int == old(self).position.raw.column as int,
                start_row < SH,
                start_col < SW,
                src.wf(),
                src.defv() == orig.defv(),
                r <= MH,
                forall|i: int, j: int|
                    0 <= i < SH && 0 <= j < SW && (j - start_col < r || (j - start_col == r && i
                        - start_row < 0)) ==> src.cell(i, j) == written_source_cell::<
                        MH,
                        MW,
                        SH,
                        SW,
                        MP,
                        SP,
                    >(part0, start_row as int, start_col as int, orig.cell(i, j), i, j),
                forall|i: int, j: int|
                    !(0 <= i < SH && 0 <= j < SW) || j - start_col >= r ==> src.cell(i, j)
                        == orig.cell(i, j),
                forall|rr: int, cc: int|
                    rr < r ==> self.partition_snapshot_table.cell(rr, cc) == snapshot_cell::<
                        MH,
                        MW,
                        SH,
                        SW,
                        MP,
                        SP,
                    >(part0, orig, start_row as int, start_col as int, snap0.cell(rr, cc), rr, cc),
                forall|rr: int, cc: int|
                    rr >= r ==> self.partition_snapshot_table.cell(rr, cc) == snap0.cell(rr, cc),
            decreases MH - r,
        {
            let mut c: usize = 0;
            while c < MW
                invariant
                    self.wf(),
                    self.partition_table == part0,
                    self.position == old(self).position,
                    part0 == old(self).partition_table,
                    snap0 == old(self).partition_snapshot_table,
                    start_row as int == old(self).position.raw.row as int,
                    start_col as int == old(self).position.raw.column as int,
                    start_row < SH,
                    start_col < SW,
                    src.wf(),
                    src.defv() == orig.defv(),
                    r < MH,
                    c <= MW,
                    forall|i: int, j: int|
                        0 <= i < SH && 0 <= j < SW && (j - start_col < r || (j - start_col == r && i
                            - start_row < c)) ==> src.cell(i, j) == written_source_cell::<
                            MH,
                            MW,
                            SH,
                            SW,
                            MP,
                            SP,
                        >(part0, start_row as int, start_col as int, orig.cell(i, j), i, j),
                    forall|i: int, j: int|
                        !(0 <= i < SH && 0 <= j < SW) || j - start_col > r || (j - start_col == r
                            && i - start_row >= c) ==> src.cell(i, j) == orig.cell(i, j),
                    forall|rr: int, cc: int|
                        rr < r || (rr == r && cc < c) ==> self.partition_snapshot_table.cell(rr, cc)
                            == snapshot_cell::<MH, MW, SH, SW, MP, SP>(
                            part0,
                            orig,
                            start_row as int,
                            start_col as int,
                            snap0.cell(rr, cc),
                            rr,
                            cc,
                        ),
                    forall|rr: int, cc: int|
                        rr > r || (rr == r && cc >= c) ==> self.partition_snapshot_table.cell(
                            rr,
                            cc,
                        ) == snap0.cell(rr, cc),
                decreases MW - c,
            {
                if c < SH - start_row && r < SW - start_col {
                    let i = start_row + c;
                    let j = start_col + r;
                    let part_handle = self.partition_table.get_pixel((r, c));
                    proof {
                        part_handle.value.pixel_laws(part_handle.value.spec_color());
                    }
                    if part_handle.value.has_color() {
                        let new_color = *part_handle.value.color();
                        let src_handle = match src.inner.get((i, j)) {
                            Some(h) => h,
                            None => {
                                proof {
                                    assert(false);
                                }
                                unreached()
                            },
                        };
                        proof {
                            src_handle.value.pixel_laws(src_handle.value.spec_color());
                        }
                        let source_current = src_handle.value.color().to_maybe();
                        match SP::ColorType::from_maybe(new_color.to_maybe()) {
                            Some(converted) => {
                                match MP::ColorType::from_maybe(source_current) {
                                    Some(snap_color) => {
                                        let _ = self.partition_snapshot_table.update_color_at(
                                            (r, c),
                                            snap_color,
                                        );
                                    },
                                    None => {},
                                }
                                let _ = src.update_color_at((i, j), converted);
                            },
                            None => {},
                        }
                    }
                }
                c += 1;
            }
            r += 1;
        }
    }

    /// Sets every source cell under a colored partition cell to `color`, or
    /// back to its snapshot color when no color is given; every other source
    /// cell, and the partition itself, stay untouched.
    pub fn set_source_color<SP: PixelMutInterface, C: PixelCanvasMutInterface<SH, SW, SP>>(
        &mut self,
        source: &mut C,
        color: Option<SP::ColorType>,
    )
        requires
            old(self).wf(),
            old(source).spec_table().wf(),
        ensures
            *final(self) == *old(self),
            final(source).spec_table().wf(),
            final(source).spec_table().defv() == old(source).spec_table().defv(),
            forall|i: int, j: int|
                final(source).spec_table().cell(i, j) == recolored_source_cell::<
                    MH,
                    MW,
                    SH,
                    SW,
                    MP,
                    SP,
                >(
                    old(self).partition_table,
                    old(self).partition_snapshot_table,
                    old(self).position.raw.row as int,
                    old(self).position.raw.column as int,
                    color,
                    old(source).spec_table().cell(i, j),
                    i,
                    j,
                ),
    {
        let start_row = self.position.raw.row;
        let start_col = self.position.raw.column;
        let src = source.table_mut();
        let ghost orig = *src;
        let mut r: usize = 0;
        while r < MH
            invariant
                self.wf(),
                *self == *old(self),
                start_row as int == old(self).position.raw.row as int,
                start_col as int == old(self).position.raw.column as int,
                start_row < SH,
                start_col < SW,
                src.wf(),
                src.defv() == orig.defv(),
                r <= MH,
                forall|i: int, j: int|
                    0 <= i < SH && 0 <= j < SW && (j - start_col < r || (j - start_col == r && i
                        - start_row < 0)) ==> src.cell(i, j) == recolored_source_cell::<
                        MH,
                        MW,
                        SH,
                        SW,
                        MP,
                        SP,
                    >(
                        old(self).partition_table,
                        old(self).partition_snapshot_table,
                        start_row as int,
                        start_col as int,
                        color,
                        orig.cell(i, j),
                        i,
                        j,
                    ),
                forall|i: int, j: int|
                    !(0 <= i < SH && 0 <= j < SW) || j - start_col >= r ==> src.cell(i, j)
                        == orig.cell(i, j),
            decreases MH - r,
        {
            let mut c: usize = 0;
            while c < MW
                invariant
                    self.wf(),
                    *self == *old(self),
                    start_row as int == old(self).position.raw.row as int,
                    start_col as int == old(self).position.raw.column as int,
                    start_row < SH,
                    start_col < SW,
                    src.wf(),
                    src.defv() == orig.defv(),
                    r < MH,
                    c <= MW,
                    forall|i: int, j: int|
                        0 <= i < SH && 0 <= j < SW && (j - start_col < r || (j - start_col == r && i
                            - start_row < c)) ==> src.cell(i, j) == recolored_source_cell::<
                            MH,
                            MW,
                            SH,
                            SW,
                            MP,
                            SP,
                        >(
                            old(self).partition_table,
                            old(self).partition_snapshot_table,
                            start_row as int,
                            start_col as int,
                            color,
                            orig.cell(i, j),
                            i,
                            j,
                        ),
                    forall|i: int, j: int|
                        !(0 <= i < SH && 0 <= j < SW) || j - start_col > r || (j - start_col == r
                            && i - start_row >= c) ==> src.cell(i, j) == orig.cell(i, j),
                decreases MW - c,
            {
                if c < SH - start_row && r < SW - start_col {
                    let i = start_row + c;
                    let j = start_col + r;
                    let part_handle = self.partition_table.get_pixel((r, c));
                    proof {
                        part_handle.value.pixel_laws(part_handle.value.spec_color());
                    }
                    if part_handle.value.has_color() {
                        match color {
                            Some(chosen) => {
                                let _ = src.update_color_at((i, j), chosen);
                            },
                            None => {
                                let snap_handle = self.partition_snapshot_table.get_pixel((r, c));
                                proof {
                                    snap_handle.value.pixel_laws(snap_handle.value.spec_color());
                                }
                                let m = snap_handle.value.color().to_maybe();
                                match SP::ColorType::from_maybe(m) {
                                    Some(restored) => {
                                        let _ = src.update_color_at((i, j), restored);
                                    },
                                    None => {},
                                }
                            },
                        }
                    }
                }
                c += 1;
            }
            r += 1;
        }
    }

    /// Fills the partition with one color and writes it back: every window
    /// cell of the partition carries `color`, and every source cell under
    /// the window receives its conversion, the snapshot recording the
    /// replaced source colors.
    pub fn update_color<SP: PixelMutInterface, C: PixelCanvasMutInterface<SH, SW, SP>>(
        &mut self,
        source: &mut C,
        color: MP::ColorType,
    )
        requires
            old(self).wf(),
            old(source).spec_table().wf(),
        ensures
            final(self).wf(),
            final(self).position == old(self).position,
            forall|r: int, c: int|
                0 <= r < MH && 0 <= c < MW ==> final(self).partition_table.cell(r, c) == old(
                    self,
                ).partition_table.cell(r, c).spec_with_color(color),
            forall|r: int, c: int|
                !(0 <= r < MH && 0 <= c < MW) ==> final(self).partition_table.cell(r, c) == old(
                    self,
                ).partition_table.cell(r, c),
            final(source).spec_table().wf(),
            final(source).spec_table().defv() == old(source).spec_table().defv(),
            forall|i: int, j: int|
                final(source).spec_table().cell(i, j) == written_source_cell::<MH, MW, SH, SW, MP, SP>(
                    final(self).partition_table,
                    old(self).position.raw.row as int,
                    old(self).position.raw.column as int,
                    old(source).spec_table().cell(i, j),
                    i,
                    j,
                ),
            forall|r: int, c: int|
                final(self).partition_snapshot_table.cell(r, c) == snapshot_cell::<
                    MH,
                    MW,
                    SH,
                    SW,
                    MP,
                    SP,
                >(
                    final(self).partition_table,
                    old(source).spec_table(),
                    old(self).position.raw.row as int,
                    old(self).position.raw.column as int,
                    old(self).partition_snapshot_table.cell(r, c),
                    r,
                    c,
                ),
    {
        self.partition_table.fill(color);
        self.write_source(source);
    }

    /// Restores the source under the old window from the snapshot, moves the
    /// window and stamps the partition at its new place: each source cell
    /// ends as the write at the new window applied over the restoration at
    /// the old one.
    pub fn crop_to<SP: PixelMutInterface, C: PixelCanvasMutInterface<SH, SW, SP>, T:
        IntoPixelStrictPosition<SH, SW>>(&mut self, source: &mut C, new_position: T)
        requires
            old(self).wf(),
            old(source).spec_table().wf(),
            new_position.into_wf(),
        ensures
            final(self).wf(),
            final(self).position.raw.row as int == new_position.into_row(),
            final(self).position.raw.column as int == new_position.into_column(),
            final(self).partition_table == old(self).partition_table,
            final(source).spec_table().wf(),
            final(source).spec_table().defv() == old(source).spec_table().defv(),
            forall|i: int, j: int|
                final(source).spec_table().cell(i, j) == written_source_cell::<MH, MW, SH, SW, MP, SP>(
                    old(self).partition_table,
                    new_position.into_row(),
                    new_position.into_column(),
                    recolored_source_cell::<MH, MW, SH, SW, MP, SP>(
                        old(self).partition_table,
                        old(self).partition_snapshot_table,
                        old(self).position.raw.row as int,
                        old(self).position.raw.column as int,
                        None,
                        old(source).spec_table().cell(i, j),
                        i,
                        j,
                    ),
                    i,
                    j,
                ),
            forall|r: int, c: int|
                final(self).partition_snapshot_table.cell(r, c) == snapshot_cell_value::<MP, SP>(
                    old(self).partition_table.cell(r, c),
                    recolored_source_cell::<MH, MW, SH, SW, MP, SP>(
                        old(self).partition_table,
                        old(self).partition_snapshot_table,
                        old(self).position.raw.row as int,
                        old(self).position.raw.column as int,
                        None,
                        old(source).spec_table().cell(
                            new_position.into_row() + c,
                            new_position.into_column() + r,
                        ),
                        new_position.into_row() + c,
                        new_position.into_column() + r,
                    ),
                    old(self).partition_snapshot_table.cell(r, c),
                    0 <= r < MH && 0 <= c < MW && 0 <= new_position.into_row() + c < SH && 0
                        <= new_position.into_column() + r < SW,
                ),
    {
        self.set_source_color(source, None);
        self.position = new_position.into_pixel_strict_position();
        self.write_source(source);
    }

    /// Writes the partition once more at a new place: the stamp lands at
    /// the new window while cells written at previous positions remain.
    pub fn copy_to<SP: PixelMutInterface, C: PixelCanvasMutInterface<SH, SW, SP>, T:
        IntoPixelStrictPosition<SH, SW>>(&mut self, source: &mut C, new_position: T)
        requires
            old(self).wf(),
            old(source).spec_table().wf(),
            new_position.into_wf(),
        ensures
            final(self).wf(),
            final(self).position.raw.row as int == new_position.into_row(),
            final(self).position.raw.column as int == new_position.into_column(),
            final(self).partition_table == old(self).partition_table,
            final(source).spec_table().wf(),
            final(source).spec_table().defv() == old(source).spec_table().defv(),
            forall|i: int, j: int|
                final(source).spec_table().cell(i, j) == written_source_cell::<MH, MW, SH, SW, MP, SP>(
                    old(self).partition_table,
                    new_position.into_row(),
                    new_position.into_column(),
                    old(source).spec_table().cell(i, j),
                    i,
                    j,
                ),
            forall|r: int, c: int|
                final(self).partition_snapshot_table.cell(r, c) == snapshot_cell::<
                    MH,
                    MW,
                    SH,
                    SW,
                    MP,
                    SP,
                >(
                    old(self).partition_table,
                    old(source).spec_table(),
                    new_position.into_row(),
                    new_position.into_column(),
                    old(self).partition_snapshot_table.cell(r, c),
                    r,
                    c,
                ),
    {
        self.position = new_position.into_pixel_strict_position();
        self.write_source(source);
    }

    /// Moves the window and re-reads the source under it.
    pub fn update_position<SP: PixelInterface, C: PixelCanvasInterface<SH, SW, SP>, T:
        IntoPixelStrictPosition<SH, SW>>(&mut self, source: &C, new_position: T)
        requires
            old(self).wf(),
            source.spec_table().wf(),
            new_position.into_wf(),
        ensures
            final(self).wf(),
            final(self).position.raw.row as int == new_position.into_row(),
            final(self).position.raw.column as int == new_position.into_column(),
            forall|rr: int, cc: int|
                0 <= rr < MH && 0 <= cc < MW ==> final(self).partition_table.cell(rr, cc)
                    == read_cell::<SH, SW, SP, MP>(
                    source.spec_table(),
                    new_position.into_row(),
                    new_position.into_column(),
                    rr,
                    cc,
                ),
    {
        self.position = new_position.into_pixel_strict_position();
        self.read_source(source);
    }

    /// The partition cell over each source cell of the window, as pairs of
    /// strict positions: one pair for every window cell whose source
    /// position is in bounds, in row-major order over the window, and no
    /// pair twice.
    pub fn included_positions(&self) -> (r: Vec<
        (PixelStrictPosition<MH, MW>, PixelStrictPosition<SH, SW>),
    >)
        requires
            self.wf(),
        ensures
            forall|k: int|
                0 <= k < r@.len() ==> {
                    let (part, source) = #[trigger] r@[k];
                    &&& part.wf()
                    &&& source.wf()
                    &&& source.raw.row as int == partition_source_row(
                        self.position.raw.row as int,
                        part.raw.column as int,
                    )
                    &&& source.raw.column as int == partition_source_col(
                        self.position.raw.column as int,
                        part.raw.row as int,
                    )
                },
            forall|rr: int, cc: int|
                #![trigger partition_source_row(self.position.raw.row as int, cc), partition_source_col(self.position.raw.column as int, rr)]
                0 <= rr < MH && 0 <= cc < MW && partition_source_row(
                    self.position.raw.row as int,
                    cc,
                ) < SH && partition_source_col(self.position.raw.column as int, rr) < SW
                    ==> exists|k: int|
                    0 <= k < r@.len() && (#[trigger] r@[k]).0.raw.row as int == rr
                        && r@[k].0.raw.column as int == cc,
            forall|k1: int, k2: int|
                0 <= k1 < k2 < r@.len() ==> ((#[trigger] r@[k1]).0.raw.row
                    < (#[trigger] r@[k2]).0.raw.row || (r@[k1].0.raw.row == r@[k2].0.raw.row
                    && r@[k1].0.raw.column < r@[k2].0.raw.column)),
    {
        let start_row = self.position.raw.row;
        let start_col = self.position.raw.column;
        let mut out: Vec<(PixelStrictPosition<MH, MW>, PixelStrictPosition<SH, SW>)> = Vec::new();
        let mut rr: usize = 0;
        let mut cc: usize = 0;
        while rr < MH && MW > 0
            invariant
                self.wf(),
                start_row == self.position.raw.row,
                start_col == self.position.raw.column,
                start_row < SH,
                start_col < SW,
                rr <= MH,
                MW == 0 || cc < MW,
                rr < MH || cc == 0,
                forall|k: int|
                    0 <= k < out@.len() ==> {
                        let (part, source) = #[trigger] out@[k];
                        &&& part.wf()
                        &&& source.wf()
                        &&& source.raw.row as int == partition_source_row(
                            self.position.raw.row as int,
                            part.raw.column as int,
                        )
                        &&& source.raw.column as int == partition_source_col(
                            self.position.raw.column as int,
                            part.raw.row as int,
                        )
                    },
                forall|r2: int, c2: int|
                    #![trigger partition_source_row(self.position.raw.row as int, c2), partition_source_col(self.position.raw.column as int, r2)]
                    0 <= r2 < MH && 0 <= c2 < MW && (r2 < rr || (r2 == rr && c2 < cc))
                        && partition_source_row(self.position.raw.row as int, c2) < SH
                        && partition_source_col(self.position.raw.column as int, r2) < SW
                        ==> exists|k: int|
                        0 <= k < out@.len() && (#[trigger] out@[k]).0.raw.row as int == r2
                            && out@[k].0.raw.column as int == c2,
                forall|k1: int, k2: int|
                    0 <= k1 < k2 < out@.len() ==> ((#[trigger] out@[k1]).0.raw.row
                        < (#[trigger] out@[k2]).0.raw.row || (out@[k1].0.raw.row
                        == out@[k2].0.raw.row && out@[k1].0.raw.column < out@[k2].0.raw.column)),
                forall|k: int|
                    0 <= k < out@.len() ==> ((#[trigger] out@[k]).0.raw.row < rr || (out@[k].0.raw.row
                        == rr && out@[k].0.raw.column < cc)),
            decreases MH - rr, MW - cc,
        {
            let ghost out0 = out@;
            let ghost rr0 = rr as int;
            let ghost cc0 = cc as int;
            if cc < SH - start_row && rr < SW - start_col {
                let part = PixelStrictPosition { raw: PixelPosition { row: rr, column: cc } };
                let source_pos = PixelStrictPosition {
                    raw: PixelPosition { row: start_row + cc, column: start_col + rr },
                };
                out.push((part, source_pos));
            }
            cc += 1;
            if cc == MW {
                cc = 0;
                rr += 1;
            }
            proof {
                assert forall|r2: int, c2: int|
                    #![trigger partition_source_row(self.position.raw.row as int, c2), partition_source_col(self.position.raw.column as int, r2)]
                    0 <= r2 < MH && 0 <= c2 < MW && (r2 < rr || (r2 == rr && c2 < cc))
                        && partition_source_row(self.position.raw.row as int, c2) < SH
                        && partition_source_col(self.position.raw.column as int, r2) < SW
                        implies exists|k: int|
                    0 <= k < out@.len() && (#[trigger] out@[k]).0.raw.row as int == r2
                        && out@[k].0.raw.column as int == c2 by {
                    if r2 < rr0 || (r2 == rr0 && c2 < cc0) {
                        let k = choose|k: int|
                            0 <= k < out0.len() && (#[trigger] out0[k]).0.raw.row as int == r2
                                && out0[k].0.raw.column as int == c2;
                        assert(out@[k].0.raw.row as int == r2 && out@[k].0.raw.column as int == c2);
                    } else {
                        assert(r2 == rr0 && c2 == cc0);
                        assert(out@[out@.len() - 1].0.raw.row as int == r2 && out@[out@.len()
                            - 1].0.raw.column as int == c2);
                    }
                }
            }
        }
        out
    }

    /// A mutable borrow of the partition's own table.
    pub fn partition_table_mut(&mut self) -> (r: &mut PixelTable<MH, MW, MP>)
        ensures
            *r == old(self).partition_table,
            final(self).partition_table == *final(r),
            final(self).position == old(self).position,
            final(self).partition_snapshot_table == old(self).partition_snapshot_table,
    {
        &mut self.partition_table
    }

    /// The partition's own table.
    pub fn partition_table(&self) -> (r: &PixelTable<MH, MW, MP>)
        ensures
            *r == self.partition_table,
    {
        &self.partition_table
    }

    /// The anchor of the window on the source.
    pub fn position(&self) -> (r: PixelStrictPosition<SH, SW>)
        ensures
            r == self.position,
    {
        self.position
    }
}

impl<
    const MH: usize,
    const MW: usize,
    const SH: usize,
    const SW: usize,
    MP: PixelInterface,
> PixelCanvasInterface<MH, MW, MP> for CanvasPartition<MH, MW, SH, SW, MP> {
    open spec fn spec_table(&self) -> PixelTable<MH, MW, MP> {
        self.partition_table
    }

    fn table(&self) -> (r: &PixelTable<MH, MW, MP>) {
        &self.partition_table
    }
}

impl<
    const MH: usize,
    const MW: usize,
    const SH: usize,
    const SW: usize,
    MP: PixelMutInterface,
> PixelCanvasMutInterface<MH, MW, MP> for CanvasPartition<MH, MW, SH, SW, MP> {
    fn table_mut(&mut self) -> (r: &mut PixelTable<MH, MW, MP>) {
        &mut self.partition_table
    }
}

impl<
    const MH: usize,
    const MW: usize,
    const SH: usize,
    const SW: usize,
    MP: PixelInterface,
> super::drawable::Drawable<MH, MW, MP> for CanvasPartition<MH, MW, SH, SW, MP> {
    open spec fn spec_source(&self) -> PixelTable<MH, MW, MP> {
        self.partition_table
    }

    fn source_table(&self) -> (r: &PixelTable<MH, MW, MP>) {
        &self.partition_table
    }
}

} // verus!
