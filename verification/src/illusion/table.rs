//! Sparse fixed-capacity two-dimensional container.
//!
//! An [`IllusionTable`] nests a sparse array of sparse rows: the outer array
//! maps row indices to rows, each row maps column indices to values. A row is
//! stored exactly while it holds at least one entry, and an entry is stored
//! exactly while its value differs from the table's default, so a mostly
//! default table costs only as much as its non-default cells.

use vstd::arithmetic::div_mod::lemma_fundamental_div_mod_converse;
use vstd::prelude::*;

use super::{
    find_value, lemma_find_characterization, lemma_find_remove, IllusionArray,
    IllusionArrayHandleMut, IllusionItem,
    IllusionValue, InnerIllusionArray,
};

verus! {

/// Sum of the stored-entry counts of a sequence of rows.
pub open spec fn sum_filled<const W: usize, P>(s: Seq<IllusionItem<IllusionArray<W, P>>>) -> int
    decreases s.len(),
{
    if s.len() == 0 {
        0
    } else {
        sum_filled(s.drop_last()) + s.last().value.inner.items@.len()
    }
}

/// How `sum_filled` changes when a row is removed.
proof fn lemma_sum_remove<const W: usize, P>(s: Seq<IllusionItem<IllusionArray<W, P>>>, j: int)
    requires
        0 <= j < s.len(),
    ensures
        sum_filled(s.remove(j)) == sum_filled(s) - s[j].value.inner.items@.len(),
    decreases s.len(),
{
    if j == s.len() - 1 {
        assert(s.remove(j) =~= s.drop_last());
    } else {
        assert(s.remove(j).drop_last() =~= s.drop_last().remove(j));
        assert(s.remove(j).last() == s.last());
        lemma_sum_remove(s.drop_last(), j);
    }
}

/// How `sum_filled` changes when a row is inserted.
proof fn lemma_sum_insert<const W: usize, P>(
    s: Seq<IllusionItem<IllusionArray<W, P>>>,
    j: int,
    item: IllusionItem<IllusionArray<W, P>>,
)
    requires
        0 <= j <= s.len(),
    ensures
        sum_filled(s.insert(j, item)) == sum_filled(s) + item.value.inner.items@.len(),
    decreases s.len(),
{
    let t = s.insert(j, item);
    if j == s.len() {
        assert(t.drop_last() =~= s);
        assert(t.last() == item);
    } else {
        assert(t.drop_last() =~= s.drop_last().insert(j, item));
        assert(t.last() == s.last());
        lemma_sum_insert(s.drop_last(), j, item);
    }
}

/// In a strictly sorted entry sequence each position is at most its index, so
/// a sequence with indices below `n` has at most `n` entries.
proof fn lemma_sorted_position_bound<P>(s: Seq<IllusionItem<P>>, j: int)
    requires
        super::strictly_sorted(s),
        0 <= j < s.len(),
    ensures
        j <= s[j].index as int,
    decreases j,
{
    if j > 0 {
        lemma_sorted_position_bound(s, j - 1);
        assert(s[j - 1].index < s[j].index);
    }
}

/// The backing store of an [`IllusionTable`]: a sparse array of sparse rows
/// plus the table's own default value.
pub struct InnerIllusionTable<const H: usize, const W: usize, P> {
    pub inner: IllusionArray<H, IllusionArray<W, P>>,
    pub default: P,
}

impl<const H: usize, const W: usize, P: IllusionValue> InnerIllusionTable<H, W, P> {
    /// The sequence of stored rows.
    pub open spec fn rows(&self) -> Seq<IllusionItem<IllusionArray<W, P>>> {
        self.inner.inner.items@
    }

    /// The row stored for index `r`, if any.
    pub open spec fn row_stored(&self, r: int) -> Option<IllusionArray<W, P>> {
        find_value(self.rows(), r)
    }

    /// Whether a row is physically stored for index `r`.
    pub open spec fn row_present(&self, r: int) -> bool {
        self.row_stored(r) is Some
    }

    /// The value stored for cell `(r, c)`, if any.
    pub open spec fn stored2(&self, r: int, c: int) -> Option<P> {
        match self.row_stored(r) {
            Some(row) => find_value(row.inner.items@, c),
            None => None,
        }
    }

    /// Whether cell `(r, c)` has a physically stored entry.
    pub open spec fn present2(&self, r: int, c: int) -> bool {
        self.stored2(r, c) is Some
    }

    /// Model of the table's default value.
    pub open spec fn defv(&self) -> P::ModelType {
        self.default.model()
    }

    /// The effective value of cell `(r, c)`.
    pub open spec fn cell(&self, r: int, c: int) -> P::ModelType {
        match self.stored2(r, c) {
            Some(v) => v.model(),
            None => self.defv(),
        }
    }

    /// Total number of stored entries, summed over the stored rows.
    pub open spec fn total_filled(&self) -> int {
        sum_filled(self.rows())
    }

    /// Well-formedness: the outer store is sorted with in-bounds indices, every
    /// stored row is itself well-formed, non-empty and shares the table's
    /// default, and the outer store's default row is empty over that default.
    pub open spec fn wf(&self) -> bool {
        &&& self.inner.inner.entries_ok()
        &&& forall|j: int| 0 <= j < self.rows().len() ==> (#[trigger] self.rows()[j]).value.wf()
        &&& forall|j: int|
            0 <= j < self.rows().len() ==> (#[trigger] self.rows()[j]).value.inner.items@.len() > 0
        &&& forall|j: int|
            0 <= j < self.rows().len() ==> (#[trigger] self.rows()[j]).value.defv() == self.defv()
        &&& self.inner.inner.default.wf()
        &&& self.inner.inner.default.inner.items@.len() == 0
        &&& self.inner.inner.default.defv() == self.defv()
        &&& self.default.inv()
    }

    /// A stored row is well-formed, non-empty and shares the table's default.
    pub proof fn lemma_row_stored(&self, r: int)
        requires
            self.wf(),
        ensures
            match self.row_stored(r) {
                Some(row) => row.wf() && row.inner.items@.len() > 0 && row.defv() == self.defv()
                    && 0 <= r < H,
                None => true,
            },
    {
        lemma_find_characterization(self.rows(), r);
    }

    /// A stored cell value is valid and differs from the table's default.
    pub proof fn lemma_cell_stored(&self, r: int, c: int)
        requires
            self.wf(),
        ensures
            match self.stored2(r, c) {
                Some(v) => v.inv() && v.model() != self.defv() && 0 <= r < H && 0 <= c < W,
                None => true,
            },
    {
        self.lemma_row_stored(r);
        match self.row_stored(r) {
            Some(row) => {
                row.inner.lemma_stored_value(c);
            },
            None => {},
        }
    }

    /// Default elision in two dimensions: a cell is stored exactly when its
    /// effective value differs from the table's default.
    pub proof fn lemma_default_elision2(&self, r: int, c: int)
        requires
            self.wf(),
        ensures
            self.present2(r, c) <==> self.cell(r, c) != self.defv(),
    {
        self.lemma_cell_stored(r, c);
    }

    /// A row is stored exactly while it holds at least one entry.
    pub proof fn lemma_row_pruned(&self, r: int)
        requires
            self.wf(),
        ensures
            self.row_present(r) <==> exists|c: int| self.present2(r, c),
    {
        self.lemma_row_stored(r);
        match self.row_stored(r) {
            Some(row) => {
                let c = row.inner.items@[0].index as int;
                super::lemma_find_at(row.inner.items@, 0);
                assert(self.present2(r, c));
            },
            None => {},
        }
    }

    /// Number of stored entries, summed over the stored rows.
    pub fn filled_len(&self) -> (r: usize)
        requires
            self.wf(),
            (H as int) * (W as int) <= usize::MAX as int,
        ensures
            r == self.total_filled(),
    {
        let n = self.inner.inner.items.len();
        let mut acc: usize = 0;
        let mut j: usize = 0;
        proof {
            assert(self.rows().subrange(0, 0) =~= Seq::<
                IllusionItem<IllusionArray<W, P>>,
            >::empty());
        }
        while j < n
            invariant
                self.wf(),
                (H as int) * (W as int) <= usize::MAX as int,
                n == self.rows().len(),
                j <= n,
                acc == sum_filled(self.rows().subrange(0, j as int)),
                acc <= (j as int) * (W as int),
            decreases n - j,
        {
            proof {
                // Rows are at most W long and there are at most H of them.
                let row = self.rows()[j as int].value;
                if row.inner.items@.len() > 0 {
                    lemma_sorted_position_bound(
                        row.inner.items@,
                        row.inner.items@.len() as int - 1,
                    );
                }
                lemma_sorted_position_bound(self.rows(), j as int);
                assert(self.rows().subrange(0, j as int + 1).drop_last() =~= self.rows().subrange(
                    0,
                    j as int,
                ));
                assert((j as int) * (W as int) + (W as int) == (j as int + 1) * (W as int))
                    by (nonlinear_arith);
                assert((j as int + 1) * (W as int) <= (H as int) * (W as int)) by (nonlinear_arith)
                    requires
                        j as int + 1 <= H as int,
                        W as int >= 0,
                ;
            }
            let row_len = self.inner.inner.items[j].value.inner.filled_len();
            acc = acc + row_len;
            j += 1;
        }
        proof {
            assert(self.rows().subrange(0, n as int) =~= self.rows());
        }
        acc
    }

    /// The effective value of cell `(row, column)`, or `None` out of bounds.
    fn get(&self, rc: (usize, usize)) -> (r: Option<&P>)
        requires
            self.wf(),
        ensures
            match r {
                Some(p) => rc.0 < H && rc.1 < W && p.inv() && p.model() == self.cell(
                    rc.0 as int,
                    rc.1 as int,
                ),
                None => rc.0 >= H || rc.1 >= W,
            },
    {
        let (row, column) = rc;
        if row >= H || column >= W {
            return None;
        }
        proof {
            self.lemma_cell_stored(row as int, column as int);
        }
        match self.inner.inner.find_pos(row) {
            Some(j) => {
                let stored_row = &self.inner.inner.items[j].value;
                match stored_row.inner.find_pos(column) {
                    Some(k) => Some(&stored_row.inner.items[k].value),
                    None => Some(&self.default),
                }
            },
            None => Some(&self.default),
        }
    }

    /// Removes and returns the entry stored for cell `(r, c)`, pruning the
    /// row when the removed entry was its last one.
    fn take2(&mut self, rc: (usize, usize)) -> (r: Option<P>)
        requires
            old(self).wf(),
        ensures
            final(self).wf(),
            final(self).defv() == old(self).defv(),
            final(self).default == old(self).default,
            r == old(self).stored2(rc.0 as int, rc.1 as int),
            final(self).stored2(rc.0 as int, rc.1 as int) is None,
            forall|i: int, j: int|
                !(i == rc.0 && j == rc.1) ==> final(self).stored2(i, j) == old(self).stored2(i, j),
            final(self).total_filled() == old(self).total_filled() - (if r is Some {
                1int
            } else {
                0int
            }),
            match r {
                Some(v) => v.inv() && v.model() != old(self).defv(),
                None => true,
            },
    {
        let (row_index, column) = rc;
        proof {
            old(self).lemma_cell_stored(row_index as int, column as int);
            old(self).lemma_row_stored(row_index as int);
        }
        let ghost rows0 = self.rows();
        match self.inner.inner.take_entry(row_index) {
            Some(mut row) => {
                let ghost j = choose|j: int|
                    0 <= j < rows0.len() && (#[trigger] rows0[j]).index == row_index && rows0[j]
                        == rows0[j] && self.rows() == rows0.remove(j);
                proof {
                    assert(rows0[j].value == row);
                    lemma_sum_remove(rows0, j);
                }
                let ghost row0 = row;
                let taken = row.inner.take_entry(column);
                let ghost rows1 = self.rows();
                let ghost row1 = row;
                if row.inner.filled_len() > 0 {
                    self.inner.inner.put_entry(row_index, row);
                    proof {
                        let k = choose|k: int|
                            0 <= k <= rows1.len() && self.rows() == rows1.insert(
                                k,
                                IllusionItem { index: row_index, value: row1 },
                            );
                        lemma_sum_insert(rows1, k, IllusionItem { index: row_index, value: row1 });
                        let rows2 = self.rows();
                        assert forall|p: int| 0 <= p < rows2.len() implies {
                            let v = (#[trigger] rows2[p]).value;
                            v.wf() && v.inner.items@.len() > 0 && v.defv() == self.defv()
                        } by {
                            if p == k {
                                assert(rows2[p].value == row1);
                                lemma_row_edit_wf(row0, row1, column as int);
                            } else {
                                let p1: int = if p < k {
                                    p
                                } else {
                                    p - 1
                                };
                                assert(rows2[p] == rows1[p1]);
                                let p0: int = if p1 < j {
                                    p1
                                } else {
                                    p1 + 1
                                };
                                assert(rows1[p1] == rows0[p0]);
                            }
                        }
                    }
                } else {
                    proof {
                        assert forall|p: int| 0 <= p < rows1.len() implies {
                            let v = (#[trigger] rows1[p]).value;
                            v.wf() && v.inner.items@.len() > 0 && v.defv() == self.defv()
                        } by {
                            let p0: int = if p < j {
                                p
                            } else {
                                p + 1
                            };
                            assert(rows1[p] == rows0[p0]);
                        }
                    }
                }
                proof {
                    // Cells outside the target row are untouched; within the
                    // target row only `column` changed, and a pruned row had
                    // `column` as its only entry.
                    let sf = *self;
                    let rows2 = sf.rows();
                    assert forall|i: int, j2: int|
                        !(i == row_index as int && j2 == column as int) implies sf.stored2(i, j2)
                        == old(self).stored2(i, j2) by {
                        lemma_find_remove(rows0, j, i);
                        if rows2 != rows1 {
                            let k = choose|k: int|
                                0 <= k <= rows1.len() && rows2 == rows1.insert(
                                    k,
                                    IllusionItem { index: row_index, value: row1 },
                                );
                            super::lemma_find_insert(
                                rows1,
                                k,
                                IllusionItem { index: row_index, value: row1 },
                                i,
                            );
                        }
                        if i == row_index as int {
                            if row1.inner.items@ != row0.inner.items@ {
                                let m = choose|m: int|
                                    0 <= m < row0.inner.items@.len() && (
                                    #[trigger] row0.inner.items@[m]).index == column
                                        && row1.inner.items@ == row0.inner.items@.remove(m);
                                lemma_find_remove(row0.inner.items@, m, j2);
                            }
                            if row1.inner.items@.len() == 0 {
                                assert(row0.inner.items@.len() == 1);
                                lemma_find_characterization(row0.inner.items@, j2);
                            }
                        }
                    }
                }
                taken
            },
            None => None,
        }
    }

    /// Stores `value` for cell `(r, c)`, creating the row when it is not yet
    /// stored. The cell must be vacant and the value non-default.
    fn put2(&mut self, rc: (usize, usize), value: P)
        requires
            old(self).wf(),
            rc.0 < H,
            rc.1 < W,
            old(self).stored2(rc.0 as int, rc.1 as int) is None,
            value.inv(),
            value.model() != old(self).defv(),
        ensures
            final(self).wf(),
            final(self).defv() == old(self).defv(),
            final(self).default == old(self).default,
            final(self).stored2(rc.0 as int, rc.1 as int) == Some(value),
            forall|i: int, j: int|
                !(i == rc.0 && j == rc.1) ==> final(self).stored2(i, j) == old(self).stored2(i, j),
            final(self).total_filled() == old(self).total_filled() + 1,
    {
        let (row_index, column) = rc;
        proof {
            old(self).lemma_row_stored(row_index as int);
        }
        let ghost rows0 = self.rows();
        let mut row = match self.inner.inner.take_entry(row_index) {
            Some(row) => row,
            None => IllusionArray::new(self.default.dup()),
        };
        let ghost rows1 = self.rows();
        let ghost row0 = row;
        proof {
            if find_value(rows0, row_index as int) is Some {
                let j = choose|j: int|
                    0 <= j < rows0.len() && (#[trigger] rows0[j]).index == row_index && rows1
                        == rows0.remove(j);
                lemma_sum_remove(rows0, j);
            }
        }
        row.inner.put_entry(column, value);
        let ghost row1 = row;
        self.inner.inner.put_entry(row_index, row);
        proof {
            let k = choose|k: int|
                0 <= k <= rows1.len() && self.rows() == rows1.insert(
                    k,
                    IllusionItem { index: row_index, value: row1 },
                );
            lemma_sum_insert(rows1, k, IllusionItem { index: row_index, value: row1 });
            let sf = *self;
            let rows2 = sf.rows();
            // Well-formedness of every stored row after the edit.
            assert forall|p: int| 0 <= p < rows2.len() implies {
                let v = (#[trigger] rows2[p]).value;
                v.wf() && v.inner.items@.len() > 0 && v.defv() == sf.defv()
            } by {
                if p == k {
                    assert(rows2[p].value == row1);
                    let rowitems0 = row0.inner.items@;
                    let m = choose|m: int|
                        0 <= m <= rowitems0.len() && row1.inner.items@ == rowitems0.insert(
                            m,
                            IllusionItem { index: column, value },
                        );
                    assert forall|q: int| 0 <= q < row1.inner.items@.len() implies {
                        let v = (#[trigger] row1.inner.items@[q]).value;
                        v.inv() && v.model() != row1.defv()
                    } by {
                        if q != m {
                            let q0: int = if q < m {
                                q
                            } else {
                                q - 1
                            };
                            assert(row1.inner.items@[q] == rowitems0[q0]);
                        }
                    }
                } else {
                    let p1: int = if p < k {
                        p
                    } else {
                        p - 1
                    };
                    assert(rows2[p] == rows1[p1]);
                    if find_value(rows0, row_index as int) is Some {
                        let j = choose|j: int|
                            0 <= j < rows0.len() && (#[trigger] rows0[j]).index == row_index
                                && rows1 == rows0.remove(j);
                        let p0: int = if p1 < j {
                            p1
                        } else {
                            p1 + 1
                        };
                        assert(rows1[p1] == rows0[p0]);
                    }
                }
            }
            // Pointwise effect on stored cells.
            assert forall|i: int, j2: int|
                !(i == row_index as int && j2 == column as int) implies sf.stored2(i, j2) == old(self).stored2(i, j2) by {
                if find_value(rows0, row_index as int) is Some {
                    let j = choose|j: int|
                        0 <= j < rows0.len() && (#[trigger] rows0[j]).index == row_index && rows1
                            == rows0.remove(j);
                    lemma_find_remove(rows0, j, i);
                }
                super::lemma_find_insert(
                    rows1,
                    k,
                    IllusionItem { index: row_index, value: row1 },
                    i,
                );
                if i == row_index as int {
                    let m = choose|m: int|
                        0 <= m <= row0.inner.items@.len() && row1.inner.items@
                            == row0.inner.items@.insert(m, IllusionItem { index: column, value });
                    super::lemma_find_insert(
                        row0.inner.items@,
                        m,
                        IllusionItem { index: column, value },
                        j2,
                    );
                }
            }
            assert(sf.stored2(row_index as int, column as int) == Some(value)) by {
                let m = choose|m: int|
                    0 <= m <= row0.inner.items@.len() && row1.inner.items@
                        == row0.inner.items@.insert(m, IllusionItem { index: column, value });
                super::lemma_find_insert(
                    row0.inner.items@,
                    m,
                    IllusionItem { index: column, value },
                    column as int,
                );
            }
        }
    }
}

/// A read handle bound to one table cell: the `(row, column)` pair and a
/// reference to the cell's effective value.
pub struct IllusionArray2DHandle<'a, P> {
    pub index: (usize, usize),
    pub value: &'a P,
}

impl<'a, P> IllusionArray2DHandle<'a, P> {
    /// The effective value this handle was bound to.
    pub fn get(&self) -> (r: &'a P)
        ensures
            r == self.value,
    {
        self.value
    }

    /// Applies `f` to the effective value.
    pub fn mapped<T, F: FnOnce(&P) -> T>(&self, f: F) -> (r: T)
        requires
            call_requires(f, (self.value,)),
        ensures
            call_ensures(f, (self.value,), r),
    {
        f(self.value)
    }

    /// The `(row, column)` pair this handle is bound to.
    pub fn index(&self) -> (r: (usize, usize))
        ensures
            r == self.index,
    {
        self.index
    }
}

/// A write handle bound to one table cell: the `(row, column)` pair and a
/// working copy of the value, committed back through [`IllusionTable::commit`].
pub struct IllusionArray2DHandleMut<P> {
    pub index: (usize, usize),
    pub current: P,
}

impl<P> IllusionArray2DHandleMut<P> {
    /// The working copy.
    pub fn get(&self) -> (r: &P)
        ensures
            r == &self.current,
    {
        &self.current
    }

    /// Mutable access to the working copy.
    pub fn get_mut(&mut self) -> (r: &mut P)
        ensures
            *r == old(self).current,
            final(self).index == old(self).index,
            final(self).current == *final(r),
    {
        &mut self.current
    }

    /// Replaces the working copy.
    pub fn set(&mut self, value: P)
        ensures
            final(self).index == old(self).index,
            final(self).current == value,
    {
        self.current = value;
    }

    /// Applies `f` to the working copy.
    pub fn mapped<T, F: FnOnce(&P) -> T>(&self, f: F) -> (r: T)
        requires
            call_requires(f, (&self.current,)),
        ensures
            call_ensures(f, (&self.current,), r),
    {
        f(&self.current)
    }

    /// Passes the whole handle through `f`, returning the reshaped handle.
    pub fn modify<F: FnOnce(Self) -> Self>(self, f: F) -> (r: Self)
        requires
            call_requires(f, (self,)),
        ensures
            call_ensures(f, (self,), r),
    {
        f(self)
    }

    /// The `(row, column)` pair this handle is bound to.
    pub fn index(&self) -> (r: (usize, usize))
        ensures
            r == self.index,
    {
        self.index
    }
}

/// A sparse table that behaves as if it held `H * W` cells: unstored cells
/// read as the default value, a cell is stored exactly while its value
/// differs from the default, and a row is stored exactly while it has at
/// least one stored cell.
pub struct IllusionTable<const H: usize, const W: usize, P> {
    pub inner: InnerIllusionTable<H, W, P>,
}

impl<const H: usize, const W: usize, P: IllusionValue> IllusionTable<H, W, P> {
    /// Model of the table's default value.
    pub open spec fn defv(&self) -> P::ModelType {
        self.inner.defv()
    }

    /// The effective value of cell `(r, c)`.
    pub open spec fn cell(&self, r: int, c: int) -> P::ModelType {
        self.inner.cell(r, c)
    }

    /// Whether cell `(r, c)` has a physically stored entry.
    pub open spec fn present2(&self, r: int, c: int) -> bool {
        self.inner.present2(r, c)
    }

    /// Whether a row is physically stored for index `r`.
    pub open spec fn row_present(&self, r: int) -> bool {
        self.inner.row_present(r)
    }

    /// Total number of stored entries, summed over the stored rows.
    pub open spec fn total_filled(&self) -> int {
        self.inner.total_filled()
    }

    /// Well-formedness of the backing store.
    pub open spec fn wf(&self) -> bool {
        self.inner.wf()
    }

    /// An empty table over the given default value.
    pub fn new(default: P) -> (r: Self)
        requires
            default.inv(),
        ensures
            r.wf(),
            r.defv() == default.model(),
            r.total_filled() == 0,
            forall|i: int, j: int| r.cell(i, j) == default.model(),
            forall|i: int, j: int| !r.present2(i, j),
    {
        let default_row = IllusionArray::new(default.dup());
        let r = IllusionTable {
            inner: InnerIllusionTable {
                inner: IllusionArray {
                    inner: InnerIllusionArray { items: Vec::new(), default: default_row },
                },
                default,
            },
        };
        proof {
            assert(r.inner.rows().len() == 0);
        }
        r
    }

    /// Default elision in two dimensions: a cell is stored exactly when its
    /// effective value differs from the table's default.
    pub proof fn lemma_default_elision2(&self, r: int, c: int)
        requires
            self.wf(),
        ensures
            self.present2(r, c) <==> self.cell(r, c) != self.defv(),
    {
        self.inner.lemma_default_elision2(r, c);
    }

    /// Row pruning: a row is stored exactly while it has a stored cell, so no
    /// empty row ever lingers in the outer store.
    pub proof fn lemma_row_pruned(&self, r: int)
        requires
            self.wf(),
        ensures
            self.row_present(r) <==> exists|c: int| self.present2(r, c),
    {
        self.inner.lemma_row_pruned(r);
        if self.inner.row_present(r) {
            let c = choose|c: int| self.inner.present2(r, c);
            assert(self.present2(r, c));
        }
        if exists|c: int| self.present2(r, c) {
            let c = choose|c: int| self.present2(r, c);
            assert(self.inner.present2(r, c));
        }
    }

    /// Number of stored entries, summed over the stored rows.
    pub fn filled_len(&self) -> (r: usize)
        requires
            self.wf(),
            (H as int) * (W as int) <= usize::MAX as int,
        ensures
            r == self.total_filled(),
    {
        self.inner.filled_len()
    }

    /// A read handle over cell `(row, column)`; `None` exactly when out of
    /// bounds.
    pub fn get(&self, rc: (usize, usize)) -> (r: Option<IllusionArray2DHandle<P>>)
        requires
            self.wf(),
        ensures
            match r {
                Some(h) => rc.0 < H && rc.1 < W && h.index == rc && h.value.inv()
                    && h.value.model() == self.cell(rc.0 as int, rc.1 as int),
                None => rc.0 >= H || rc.1 >= W,
            },
    {
        match self.inner.get(rc) {
            Some(p) => Some(IllusionArray2DHandle { index: rc, value: p }),
            None => None,
        }
    }

    /// A write handle over cell `(row, column)`, its working copy started at
    /// the current effective value; `None` exactly when out of bounds.
    pub fn get_mut(&mut self, rc: (usize, usize)) -> (r: Option<IllusionArray2DHandleMut<P>>)
        requires
            old(self).wf(),
        ensures
            *final(self) == *old(self),
            match r {
                Some(h) => rc.0 < H && rc.1 < W && h.index == rc && h.current.inv()
                    && h.current.model() == old(self).cell(rc.0 as int, rc.1 as int),
                None => rc.0 >= H || rc.1 >= W,
            },
    {
        match self.inner.get(rc) {
            Some(p) => Some(IllusionArray2DHandleMut { index: rc, current: p.dup() }),
            None => None,
        }
    }

    /// Writes a handle's working copy back: the entry is stored when the copy
    /// differs from the default and removed otherwise, pruning a row that
    /// loses its last entry.
    pub fn commit(&mut self, h: IllusionArray2DHandleMut<P>)
        requires
            old(self).wf(),
            h.index.0 < H,
            h.index.1 < W,
            h.current.inv(),
        ensures
            final(self).wf(),
            final(self).defv() == old(self).defv(),
            final(self).cell(h.index.0 as int, h.index.1 as int) == h.current.model(),
            final(self).present2(h.index.0 as int, h.index.1 as int) == (h.current.model() != old(self).defv()),
            forall|i: int, j: int|
                !(i == h.index.0 && j == h.index.1) ==> final(self).cell(i, j) == old(self).cell(
                    i,
                    j,
                ) && final(self).present2(i, j) == old(self).present2(i, j),
            final(self).total_filled() == old(self).total_filled() - (if old(self).present2(
                h.index.0 as int,
                h.index.1 as int,
            ) {
                1int
            } else {
                0int
            }) + (if h.current.model() != old(self).defv() {
                1int
            } else {
                0int
            }),
    {
        let _ = self.inner.take2(h.index);
        if !h.current.eq_value(&self.inner.default) {
            self.inner.put2(h.index, h.current);
        }
    }

    /// Runs `f` on a fresh write handle for `(row, column)` and commits the
    /// result; `false` exactly when out of bounds, in which case nothing
    /// changes.
    pub fn try_modify<F: FnOnce(IllusionArray2DHandleMut<P>) -> IllusionArray2DHandleMut<P>>(
        &mut self,
        rc: (usize, usize),
        f: F,
    ) -> (r: bool)
        requires
            old(self).wf(),
            forall|h: IllusionArray2DHandleMut<P>|
                h.index == rc && h.current.inv() ==> #[trigger] call_requires(f, (h,)),
            forall|h: IllusionArray2DHandleMut<P>, h2: IllusionArray2DHandleMut<P>|
                #[trigger] call_ensures(f, (h,), h2) ==> h2.index == h.index && h2.current.inv(),
        ensures
            r == (rc.0 < H && rc.1 < W),
            final(self).wf(),
            final(self).defv() == old(self).defv(),
            !r ==> *final(self) == *old(self),
            r ==> exists|h0: IllusionArray2DHandleMut<P>, h1: IllusionArray2DHandleMut<P>|
                {
                    &&& h0.index == rc
                    &&& h0.current.inv()
                    &&& h0.current.model() == old(self).cell(rc.0 as int, rc.1 as int)
                    &&& #[trigger] call_ensures(f, (h0,), h1)
                    &&& final(self).cell(rc.0 as int, rc.1 as int) == h1.current.model()
                    &&& forall|i: int, j: int|
                        !(i == rc.0 && j == rc.1) ==> final(self).cell(i, j) == old(self).cell(
                            i,
                            j,
                        )
                },
    {
        match self.get_mut(rc) {
            Some(h) => {
                let ghost h0 = h;
                let h1 = f(h);
                self.commit(h1);
                true
            },
            None => false,
        }
    }

    /// Exchanges the effective values of cells `a` and `b`, whichever of the
    /// two currently has a stored entry; no stored entry ever holds the
    /// default and no emptied row lingers.
    pub fn swap(&mut self, a: (usize, usize), b: (usize, usize))
        requires
            old(self).wf(),
            a.0 < H,
            a.1 < W,
            b.0 < H,
            b.1 < W,
        ensures
            final(self).wf(),
            final(self).defv() == old(self).defv(),
            final(self).cell(a.0 as int, a.1 as int) == old(self).cell(b.0 as int, b.1 as int),
            final(self).cell(b.0 as int, b.1 as int) == old(self).cell(a.0 as int, a.1 as int),
            final(self).present2(a.0 as int, a.1 as int) == old(self).present2(
                b.0 as int,
                b.1 as int,
            ),
            final(self).present2(b.0 as int, b.1 as int) == old(self).present2(
                a.0 as int,
                a.1 as int,
            ),
            forall|i: int, j: int|
                !(i == a.0 && j == a.1) && !(i == b.0 && j == b.1) ==> final(self).cell(i, j)
                    == old(self).cell(i, j) && final(self).present2(i, j) == old(self).present2(
                    i,
                    j,
                ),
            final(self).total_filled() == old(self).total_filled(),
    {
        let va = self.inner.take2(a);
        let vb = self.inner.take2(b);
        if let Some(v) = va {
            self.inner.put2(b, v);
        }
        if let Some(v) = vb {
            self.inner.put2(a, v);
        }
    }

    /// A read handle over a whole row; `None` exactly when out of bounds. An
    /// absent row reads as the shared empty default row.
    pub fn get_row(&self, row: usize) -> (r: Option<
        super::IllusionArrayHandle<IllusionArray<W, P>>,
    >)
        requires
            self.wf(),
        ensures
            match r {
                Some(h) => row < H && h.index == row && h.value.wf() && h.value.defv()
                    == self.defv() && (forall|c: int|
                    h.value.effective(c) == self.cell(row as int, c)) && (forall|c: int|
                    h.value.present(c) == self.present2(row as int, c)),
                None => row >= H,
            },
    {
        if row >= H {
            return None;
        }
        proof {
            self.inner.lemma_row_stored(row as int);
        }
        match self.inner.inner.inner.find_pos(row) {
            Some(j) => Some(
                super::IllusionArrayHandle {
                    index: row,
                    value: &self.inner.inner.inner.items[j].value,
                },
            ),
            None => Some(
                super::IllusionArrayHandle { index: row, value: &self.inner.inner.inner.default },
            ),
        }
    }

    /// A write handle over a whole row, its working copy started as a copy of
    /// the current row; commit it back with [`IllusionTable::commit_row`].
    pub fn get_row_mut(&mut self, row: usize) -> (r: Option<
        IllusionArrayHandleMut<IllusionArray<W, P>>,
    >)
        requires
            old(self).wf(),
        ensures
            *final(self) == *old(self),
            match r {
                Some(h) => row < H && h.index == row && h.current.wf() && h.current.defv() == old(
                    self,
                ).defv() && (forall|c: int|
                    h.current.effective(c) == old(self).cell(row as int, c)) && (forall|c: int|
                    h.current.present(c) == old(self).present2(row as int, c)),
                None => row >= H,
            },
    {
        if row >= H {
            return None;
        }
        proof {
            self.inner.lemma_row_stored(row as int);
        }
        match self.inner.inner.inner.find_pos(row) {
            Some(j) => {
                let copy = self.inner.inner.inner.items[j].value.duplicate();
                Some(IllusionArrayHandleMut { index: row, current: copy })
            },
            None => {
                let copy = self.inner.inner.inner.default.duplicate();
                Some(IllusionArrayHandleMut { index: row, current: copy })
            },
        }
    }

    /// Writes a row handle's working copy back: the row is stored while it
    /// has at least one entry and removed otherwise.
    #[verifier::rlimit(100)]
    pub fn commit_row(&mut self, h: IllusionArrayHandleMut<IllusionArray<W, P>>)
        requires
            old(self).wf(),
            h.index < H,
            h.current.wf(),
            h.current.defv() == old(self).defv(),
        ensures
            final(self).wf(),
            final(self).defv() == old(self).defv(),
            forall|c: int| final(self).cell(h.index as int, c) == h.current.effective(c),
            forall|c: int| final(self).present2(h.index as int, c) == h.current.present(c),
            forall|i: int, j: int|
                i != h.index ==> final(self).cell(i, j) == old(self).cell(i, j) && final(self).present2(i, j) == old(self).present2(i, j),
            final(self).total_filled() == old(self).total_filled() - (match old(self).inner.row_stored(
                h.index as int,
            ) {
                Some(row) => row.inner.items@.len() as int,
                None => 0int,
            }) + h.current.spec_filled(),
    {
        let ghost rows0 = self.inner.rows();
        let taken = self.inner.inner.inner.take_entry(h.index);
        let ghost rows1 = self.inner.rows();
        proof {
            if taken is Some {
                let j = choose|j: int|
                    0 <= j < rows0.len() && (#[trigger] rows0[j]).index == h.index && rows1
                        == rows0.remove(j);
                lemma_sum_remove(rows0, j);
            }
        }
        let keep = h.current.filled_len() > 0;
        if keep {
            let IllusionArrayHandleMut { index, current } = h;
            self.inner.inner.inner.put_entry(index, current);
        }
        proof {
            let sf = self.inner;
            let rows2 = sf.rows();
            if keep {
                let k = choose|k: int|
                    0 <= k <= rows1.len() && rows2 == rows1.insert(
                        k,
                        IllusionItem { index: h.index, value: h.current },
                    );
                lemma_sum_insert(rows1, k, IllusionItem { index: h.index, value: h.current });
                assert forall|p: int| 0 <= p < rows2.len() implies {
                    let v = (#[trigger] rows2[p]).value;
                    v.wf() && v.inner.items@.len() > 0 && v.defv() == sf.defv()
                } by {
                    if p != k {
                        let p1: int = if p < k {
                            p
                        } else {
                            p - 1
                        };
                        assert(rows2[p] == rows1[p1]);
                        if taken is Some {
                            let j = choose|j: int|
                                0 <= j < rows0.len() && (#[trigger] rows0[j]).index == h.index
                                    && rows1 == rows0.remove(j);
                            let p0: int = if p1 < j {
                                p1
                            } else {
                                p1 + 1
                            };
                            assert(rows1[p1] == rows0[p0]);
                        }
                    }
                }
            } else {
                assert forall|p: int| 0 <= p < rows2.len() implies {
                    let v = (#[trigger] rows2[p]).value;
                    v.wf() && v.inner.items@.len() > 0 && v.defv() == sf.defv()
                } by {
                    if taken is Some {
                        let j = choose|j: int|
                            0 <= j < rows0.len() && (#[trigger] rows0[j]).index == h.index && rows1
                                == rows0.remove(j);
                        let p0: int = if p < j {
                            p
                        } else {
                            p + 1
                        };
                        assert(rows2[p] == rows0[p0]);
                    }
                }
            }
            // Pointwise effect on cells.
            assert forall|i: int, j2: int| i != h.index implies sf.stored2(i, j2) == old(self).inner.stored2(i, j2) by {
                if taken is Some {
                    let j = choose|j: int|
                        0 <= j < rows0.len() && (#[trigger] rows0[j]).index == h.index && rows1
                            == rows0.remove(j);
                    lemma_find_remove(rows0, j, i);
                }
                if keep {
                    let k = choose|k: int|
                        0 <= k <= rows1.len() && rows2 == rows1.insert(
                            k,
                            IllusionItem { index: h.index, value: h.current },
                        );
                    super::lemma_find_insert(
                        rows1,
                        k,
                        IllusionItem { index: h.index, value: h.current },
                        i,
                    );
                }
            }
            assert forall|c: int|
                sf.cell(h.index as int, c) == h.current.effective(c) && sf.present2(
                    h.index as int,
                    c,
                ) == h.current.present(c) by {
                if keep {
                    let k = choose|k: int|
                        0 <= k <= rows1.len() && rows2 == rows1.insert(
                            k,
                            IllusionItem { index: h.index, value: h.current },
                        );
                    super::lemma_find_insert(
                        rows1,
                        k,
                        IllusionItem { index: h.index, value: h.current },
                        h.index as int,
                    );
                } else {
                    assert(h.current.inner.items@.len() == 0);
                }
            }
        }
    }

    /// A borrow of the outer array of rows.
    pub fn inner(&self) -> (r: &IllusionArray<H, IllusionArray<W, P>>)
        ensures
            r == &self.inner.inner,
    {
        &self.inner.inner
    }

    /// A mutable borrow of the outer array of rows; well-formedness is the
    /// caller's to maintain while the borrow lasts.
    pub fn inner_mut(&mut self) -> (r: &mut IllusionArray<H, IllusionArray<W, P>>)
        ensures
            *r == old(self).inner.inner,
            final(self).inner.inner == *final(r),
            final(self).inner.default == old(self).inner.default,
    {
        &mut self.inner.inner
    }

    /// The physically present entries as `((row, column), value)` pairs, in
    /// row-major order over the stored cells.
    pub fn real_items<'a>(&'a self) -> (r: Vec<((usize, usize), &'a P)>)
        requires
            self.wf(),
        ensures
            r@.len() == self.total_filled(),
            forall|k: int|
                0 <= k < r@.len() ==> {
                    let ((i, j), v) = #[trigger] r@[k];
                    self.present2(i as int, j as int) && v.inv() && v.model() == self.cell(
                        i as int,
                        j as int,
                    )
                },
            forall|k1: int, k2: int|
                0 <= k1 < k2 < r@.len() ==> ((#[trigger] r@[k1]).0.0 < (#[trigger] r@[k2]).0.0 || (
                r@[k1].0.0 == r@[k2].0.0 && r@[k1].0.1 < r@[k2].0.1)),
    {
        let rows_n = self.inner.inner.inner.items.len();
        let mut r: Vec<((usize, usize), &P)> = Vec::new();
        let mut j: usize = 0;
        proof {
            assert(self.inner.rows().subrange(0, 0) =~= Seq::<
                IllusionItem<IllusionArray<W, P>>,
            >::empty());
        }
        while j < rows_n
            invariant
                self.wf(),
                rows_n == self.inner.rows().len(),
                j <= rows_n,
                r@.len() == sum_filled(self.inner.rows().subrange(0, j as int)),
                forall|k: int|
                    0 <= k < r@.len() ==> {
                        let ((i, c), v) = #[trigger] r@[k];
                        self.present2(i as int, c as int) && v.inv() && v.model() == self.cell(
                            i as int,
                            c as int,
                        )
                    },
                forall|k1: int, k2: int|
                    0 <= k1 < k2 < r@.len() ==> ((#[trigger] r@[k1]).0.0 < (#[trigger] r@[k2]).0.0
                        || (r@[k1].0.0 == r@[k2].0.0 && r@[k1].0.1 < r@[k2].0.1)),
                forall|k: int|
                    0 <= k < r@.len() ==> j > 0 && (#[trigger] r@[k]).0.0 <= self.inner.rows()[j
                        as int - 1].index,
            decreases rows_n - j,
        {
            let row_index = self.inner.inner.inner.items[j].index;
            let row = &self.inner.inner.inner.items[j].value;
            proof {
                super::lemma_find_at(self.inner.rows(), j as int);
            }
            let cols_n = row.inner.items.len();
            let mut c: usize = 0;
            while c < cols_n
                invariant
                    self.wf(),
                    rows_n == self.inner.rows().len(),
                    j < rows_n,
                    row_index == self.inner.rows()[j as int].index,
                    row == &self.inner.rows()[j as int].value,
                    row.wf(),
                    find_value(self.inner.rows(), row_index as int) == Some(*row),
                    cols_n == row.inner.items@.len(),
                    c <= cols_n,
                    r@.len() == sum_filled(self.inner.rows().subrange(0, j as int)) + c,
                    forall|k: int|
                        0 <= k < r@.len() ==> {
                            let ((i, cc), v) = #[trigger] r@[k];
                            self.present2(i as int, cc as int) && v.inv() && v.model() == self.cell(
                                i as int,
                                cc as int,
                            )
                        },
                    forall|k1: int, k2: int|
                        0 <= k1 < k2 < r@.len() ==> ((#[trigger] r@[k1]).0.0
                            < (#[trigger] r@[k2]).0.0 || (r@[k1].0.0 == r@[k2].0.0 && r@[k1].0.1
                            < r@[k2].0.1)),
                    forall|k: int|
                        0 <= k < r@.len() ==> (#[trigger] r@[k]).0.0 <= row_index && (r@[k].0.0
                            == row_index ==> c > 0 && r@[k].0.1
                            <= row.inner.items@[c as int - 1].index),
                decreases cols_n - c,
            {
                let col_index = row.inner.items[c].index;
                proof {
                    super::lemma_find_at(row.inner.items@, c as int);
                    if c > 0 {
                        assert(row.inner.items@[c as int - 1].index < row.inner.items@[c as int].index);
                    }
                }
                r.push(((row_index, col_index), &row.inner.items[c].value));
                c += 1;
            }
            proof {
                assert(self.inner.rows().subrange(0, j as int + 1).drop_last() =~= self.inner.rows(
                ).subrange(0, j as int));
                if j as int + 1 < rows_n {
                    assert(self.inner.rows()[j as int].index < self.inner.rows()[j as int
                        + 1].index);
                }
            }
            j += 1;
        }
        proof {
            assert(self.inner.rows().subrange(0, rows_n as int) =~= self.inner.rows());
        }
        r
    }
}

/// The row-major visiting order of a full pass over an `H` by `W` table:
/// position `k` of the pass is cell `(k / W, k % W)`.
pub open spec fn row_major_order<const H: usize, const W: usize>(s: Seq<(usize, usize)>) -> bool {
    &&& s.len() == (H as int) * (W as int)
    &&& forall|k: int|
        0 <= k < s.len() ==> (#[trigger] s[k]).0 as int == k / (W as int) && s[k].1 as int == k % (
        W as int)
}

/// Ordering guarantee: any two sequences in row-major order over the same
/// dimensions are identical, so two consecutive full passes over an
/// unmodified table visit the very same cells in the very same order.
pub proof fn lemma_pass_order_unique<const H: usize, const W: usize>(
    a: Seq<(usize, usize)>,
    b: Seq<(usize, usize)>,
)
    requires
        row_major_order::<H, W>(a),
        row_major_order::<H, W>(b),
    ensures
        a == b,
{
    assert forall|k: int| 0 <= k < a.len() implies a[k] == b[k] by {
        assert(a[k].0 == b[k].0 && a[k].1 == b[k].1);
    }
    assert(a =~= b);
}

impl<const H: usize, const W: usize, P: IllusionValue> IllusionTable<H, W, P> {
    /// A fresh read cursor over all `H * W` logical cells, row-major.
    pub fn iter<'a>(&'a self) -> (r: IllusionTableIter<'a, H, W, P>)
        ensures
            r.inner == &self.inner,
            r.curr_index == (0usize, 0usize),
    {
        IllusionTableIter { inner: &self.inner, curr_index: (0, 0) }
    }

    /// A fresh write cursor over all `H * W` logical cells, row-major; each
    /// handle it yields is committed back individually.
    pub fn iter_mut(&mut self) -> (r: IllusionTableIterMut)
        ensures
            *final(self) == *old(self),
            r.curr_index == (0usize, 0usize),
    {
        IllusionTableIterMut { curr_index: (0, 0) }
    }

    /// Totality of iteration: one full sweep of the cursor yields exactly
    /// `H * W` positions, in row-major order, however few cells are stored.
    pub fn pass_positions(&self) -> (r: Vec<(usize, usize)>)
        requires
            self.wf(),
            (H as int) * (W as int) <= usize::MAX as int,
        ensures
            row_major_order::<H, W>(r@),
    {
        let mut it = self.iter();
        let mut r: Vec<(usize, usize)> = Vec::new();
        while it.curr_index.0 < H && it.curr_index.1 < W
            invariant
                self.wf(),
                (H as int) * (W as int) <= usize::MAX as int,
                it.inner == &self.inner,
                it.curr_index.1 < W || (W == 0 && it.curr_index.1 == 0),
                it.curr_index.0 <= H,
                it.curr_index.1 == 0 || it.curr_index.0 < H,
                r@.len() == (it.curr_index.0 as int) * (W as int) + it.curr_index.1 as int,
                forall|k: int|
                    0 <= k < r@.len() ==> (#[trigger] r@[k]).0 as int == k / (W as int)
                        && r@[k].1 as int == k % (W as int),
            decreases (H as int) * (W as int) - r@.len(),
        {
            let ghost row = it.curr_index.0 as int;
            let ghost col = it.curr_index.1 as int;
            proof {
                assert(row * (W as int) + col < (H as int) * (W as int)) by (nonlinear_arith)
                    requires
                        0 <= row < H as int,
                        0 <= col < W as int,
                ;
            }
            match it.next() {
                Some(h) => {
                    proof {
                        lemma_fundamental_div_mod_converse(
                            row * (W as int) + col,
                            W as int,
                            row,
                            col,
                        );
                        assert((row + 1) * (W as int) == row * (W as int) + (W as int))
                            by (nonlinear_arith);
                    }
                    r.push(h.index());
                },
                None => {
                    proof {
                        assert(false);
                    }
                },
            }
        }
        proof {
            if it.curr_index.1 as int != 0 {
                assert(W == 0);
                assert(r@.len() == (it.curr_index.0 as int) * 0 + it.curr_index.1 as int);
            }
            if W == 0 {
                assert((it.curr_index.0 as int) * (W as int) == 0) by (nonlinear_arith)
                    requires
                        W as int == 0,
                ;
                assert((H as int) * (W as int) == 0) by (nonlinear_arith)
                    requires
                        W as int == 0,
                ;
            } else {
                assert(it.curr_index.0 == H);
            }
        }
        r
    }

    /// Write handles over the physically present cells, in row-major order;
    /// each is committed back individually.
    pub fn real_items_mut(&mut self) -> (r: Vec<IllusionArray2DHandleMut<P>>)
        requires
            old(self).wf(),
        ensures
            *final(self) == *old(self),
            r@.len() == old(self).total_filled(),
            forall|k: int|
                0 <= k < r@.len() ==> {
                    let h = #[trigger] r@[k];
                    old(self).present2(h.index.0 as int, h.index.1 as int) && h.current.inv()
                        && h.current.model() == old(self).cell(h.index.0 as int, h.index.1 as int)
                },
    {
        let items = self.real_items();
        let mut r: Vec<IllusionArray2DHandleMut<P>> = Vec::new();
        let n = items.len();
        let mut k: usize = 0;
        while k < n
            invariant
                self.wf(),
                n == items@.len(),
                k <= n,
                r@.len() == k,
                forall|q: int|
                    0 <= q < items@.len() ==> {
                        let ((i, j), v) = #[trigger] items@[q];
                        self.present2(i as int, j as int) && v.model() == self.cell(
                            i as int,
                            j as int,
                        ) && v.inv()
                    },
                forall|q: int|
                    0 <= q < k ==> {
                        let h = #[trigger] r@[q];
                        self.present2(h.index.0 as int, h.index.1 as int) && h.current.inv()
                            && h.current.model() == self.cell(h.index.0 as int, h.index.1 as int)
                    },
            decreases n - k,
        {
            let (pos, v) = items[k];
            r.push(IllusionArray2DHandleMut { index: pos, current: v.dup() });
            k += 1;
        }
        r
    }
}

impl<const H: usize, const W: usize, P: IllusionValue> Default for IllusionTable<H, W, P> {
    /// An empty table over the type's designated default value.
    fn default() -> (r: Self)
        ensures
            r.wf(),
            r.defv() == P::default_model(),
            r.total_filled() == 0,
            forall|i: int, j: int| r.cell(i, j) == P::default_model(),
            forall|i: int, j: int| !r.present2(i, j),
    {
        IllusionTable::new(P::default_value())
    }
}

/// Read cursor over every logical cell of a table, row-major.
pub struct IllusionTableIter<'a, const H: usize, const W: usize, P> {
    pub inner: &'a InnerIllusionTable<H, W, P>,
    pub curr_index: (usize, usize),
}

impl<'a, const H: usize, const W: usize, P: IllusionValue> IllusionTableIter<'a, H, W, P> {
    /// The next read handle, or `None` after the last cell.
    pub fn next(&mut self) -> (r: Option<IllusionArray2DHandle<'a, P>>)
        requires
            old(self).inner.wf(),
        ensures
            final(self).inner == old(self).inner,
            old(self).curr_index.0 < H && old(self).curr_index.1 < W ==> final(self).curr_index
                == (if old(self).curr_index.1 + 1 < W {
                (old(self).curr_index.0, (old(self).curr_index.1 + 1) as usize)
            } else {
                ((old(self).curr_index.0 + 1) as usize, 0usize)
            }) && match r {
                Some(h) => h.index == old(self).curr_index && h.value.inv() && h.value.model()
                    == old(self).inner.cell(
                    old(self).curr_index.0 as int,
                    old(self).curr_index.1 as int,
                ),
                None => false,
            },
            !(old(self).curr_index.0 < H && old(self).curr_index.1 < W) ==> r is None && final(self).curr_index == old(self).curr_index,
    {
        let (row, column) = self.curr_index;
        if row < H && column < W {
            let handle = match self.inner.get((row, column)) {
                Some(p) => IllusionArray2DHandle { index: (row, column), value: p },
                None => {
                    proof {
                        assert(false);
                    }
                    unreached()
                },
            };
            if column + 1 < W {
                self.curr_index = (row, column + 1);
            } else {
                self.curr_index = (row + 1, 0);
            }
            Some(handle)
        } else {
            None
        }
    }
}

/// Write cursor over every logical cell of a table, row-major. It yields one
/// working copy at a time; the caller commits each before asking for the
/// next, which preserves the one-writer discipline.
pub struct IllusionTableIterMut {
    pub curr_index: (usize, usize),
}

impl IllusionTableIterMut {
    /// The next write handle for `table`, or `None` after the last cell.
    pub fn next<const H: usize, const W: usize, P: IllusionValue>(
        &mut self,
        table: &IllusionTable<H, W, P>,
    ) -> (r: Option<IllusionArray2DHandleMut<P>>)
        requires
            table.wf(),
        ensures
            old(self).curr_index.0 < H && old(self).curr_index.1 < W ==> final(self).curr_index
                == (if old(self).curr_index.1 + 1 < W {
                (old(self).curr_index.0, (old(self).curr_index.1 + 1) as usize)
            } else {
                ((old(self).curr_index.0 + 1) as usize, 0usize)
            }) && match r {
                Some(h) => h.index == old(self).curr_index && h.current.inv() && h.current.model()
                    == table.cell(old(self).curr_index.0 as int, old(self).curr_index.1 as int),
                None => false,
            },
            !(old(self).curr_index.0 < H && old(self).curr_index.1 < W) ==> r is None && final(self).curr_index == old(self).curr_index,
    {
        let (row, column) = self.curr_index;
        if row < H && column < W {
            let handle = match table.inner.get((row, column)) {
                Some(p) => IllusionArray2DHandleMut { index: (row, column), current: p.dup() },
                None => {
                    proof {
                        assert(false);
                    }
                    unreached()
                },
            };
            if column + 1 < W {
                self.curr_index = (row, column + 1);
            } else {
                self.curr_index = (row + 1, 0);
            }
            Some(handle)
        } else {
            None
        }
    }
}

/// Removing one entry from a well-formed row keeps it well-formed.
proof fn lemma_row_edit_wf<const W: usize, P: IllusionValue>(
    row0: IllusionArray<W, P>,
    row1: IllusionArray<W, P>,
    column: int,
)
    requires
        row0.wf(),
        row1.inner.entries_ok(),
        row1.inner.default == row0.inner.default,
        row1.inner.items@ == row0.inner.items@ || exists|m: int|
            0 <= m < row0.inner.items@.len() && row1.inner.items@ == row0.inner.items@.remove(m),
    ensures
        row1.wf(),
{
    if row1.inner.items@ != row0.inner.items@ {
        let m = choose|m: int|
            0 <= m < row0.inner.items@.len() && row1.inner.items@ == row0.inner.items@.remove(m);
        assert forall|q: int| 0 <= q < row1.inner.items@.len() implies {
            let v = (#[trigger] row1.inner.items@[q]).value;
            v.inv() && v.model() != row1.defv()
        } by {
            let q0: int = if q < m {
                q
            } else {
                q + 1
            };
            assert(row1.inner.items@[q] == row0.inner.items@[q0]);
        }
    }
}

} // verus!