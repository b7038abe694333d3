//! Sparse fixed-capacity one-dimensional container.
//!
//! An [`IllusionArray`] is logically indexed by `0..W` and behaves as if every
//! cell holds a value, while physically storing only the cells whose value
//! differs from a declared default (invariant: no stored entry ever equals the
//! default). Reads go through lightweight handles; writes go through handles
//! holding a working copy that the caller commits back explicitly.

use vstd::prelude::*;

pub mod table;

verus! {

/// A value that can live in a sparse container.
///
/// The container decides presence by comparing values against its default, so
/// it needs an executable equality and an executable clone that both agree
/// with a mathematical model of the value.
pub trait IllusionValue: Sized {
    /// The mathematical model of a value; for plain data this is the type itself.
    type ModelType;

    /// The model of this value.
    spec fn model(&self) -> Self::ModelType;

    /// Well-formedness of this value.
    spec fn inv(&self) -> bool;

    /// The model of the value produced by `default_value`.
    spec fn default_model() -> Self::ModelType;

    /// Executable equality, agreeing with equality of models.
    fn eq_value(&self, other: &Self) -> (r: bool)
        requires
            self.inv(),
            other.inv(),
        ensures
            r == (self.model() == other.model()),
    ;

    /// Executable clone, preserving the model.
    fn dup(&self) -> (r: Self)
        requires
            self.inv(),
        ensures
            r.model() == self.model(),
            r.inv(),
    ;

    /// The designated default value of the type.
    fn default_value() -> (r: Self)
        ensures
            r.model() == Self::default_model(),
            r.inv(),
    ;
}

impl IllusionValue for i32 {
    type ModelType = i32;

    open spec fn model(&self) -> i32 {
        *self
    }

    open spec fn inv(&self) -> bool {
        true
    }

    open spec fn default_model() -> i32 {
        0
    }

    fn eq_value(&self, other: &Self) -> (r: bool) {
        *self == *other
    }

    fn dup(&self) -> (r: Self) {
        *self
    }

    fn default_value() -> (r: Self) {
        0
    }
}

/// One physically stored entry: a logical index and the value kept there.
pub struct IllusionItem<P> {
    pub index: usize,
    pub value: P,
}

/// The value stored for `key` in an entry sequence, if any (first match).
pub open spec fn find_value<P>(s: Seq<IllusionItem<P>>, key: int) -> Option<P>
    decreases s.len(),
{
    if s.len() == 0 {
        None
    } else if s[0].index as int == key {
        Some(s[0].value)
    } else {
        find_value(s.drop_first(), key)
    }
}

/// Entry sequences are kept strictly sorted by index, so keys are unique.
pub open spec fn strictly_sorted<P>(s: Seq<IllusionItem<P>>) -> bool {
    forall|i: int, j: int| 0 <= i < j < s.len() ==> (#[trigger] s[i]).index < (#[trigger] s[j]).index
}

/// `find_value` finds exactly the keys that occur in the sequence.
pub proof fn lemma_find_characterization<P>(s: Seq<IllusionItem<P>>, key: int)
    ensures
        match find_value(s, key) {
            Some(v) => exists|j: int|
                0 <= j < s.len() && (#[trigger] s[j]).index as int == key && s[j].value == v,
            None => forall|j: int| 0 <= j < s.len() ==> (#[trigger] s[j]).index as int != key,
        },
    decreases s.len(),
{
    if s.len() > 0 {
        if s[0].index as int == key {
        } else {
            lemma_find_characterization(s.drop_first(), key);
            match find_value(s.drop_first(), key) {
                Some(v) => {
                    let j = choose|j: int|
                        0 <= j < s.drop_first().len()
                            && (#[trigger] s.drop_first()[j]).index as int == key
                            && s.drop_first()[j].value == v;
                    assert(s.drop_first()[j] == s[j + 1]);
                },
                None => {
                    assert forall|j: int| 0 <= j < s.len() implies (#[trigger] s[j]).index as int
                        != key by {
                        if j > 0 {
                            assert(s.drop_first()[j - 1] == s[j]);
                        }
                    }
                },
            }
        }
    }
}

/// In a sorted sequence, the entry at position `j` is what `find_value` returns
/// for its index.
pub proof fn lemma_find_at<P>(s: Seq<IllusionItem<P>>, j: int)
    requires
        strictly_sorted(s),
        0 <= j < s.len(),
    ensures
        find_value(s, s[j].index as int) == Some(s[j].value),
    decreases j,
{
    if j > 0 {
        assert(s[0].index < s[j].index);
        assert forall|i: int, k: int| 0 <= i < k < s.drop_first().len() implies (#[trigger] s
            .drop_first()[i]).index < (#[trigger] s.drop_first()[k]).index by {
            assert(s.drop_first()[i] == s[i + 1]);
            assert(s.drop_first()[k] == s[k + 1]);
        }
        lemma_find_at(s.drop_first(), j - 1);
        assert(s.drop_first()[j - 1] == s[j]);
    }
}

/// Dropping the first entry preserves sortedness.
pub proof fn lemma_sorted_drop_first<P>(s: Seq<IllusionItem<P>>)
    requires
        strictly_sorted(s),
        s.len() > 0,
    ensures
        strictly_sorted(s.drop_first()),
{
    assert forall|i: int, k: int| 0 <= i < k < s.drop_first().len() implies (#[trigger] s
        .drop_first()[i]).index < (#[trigger] s.drop_first()[k]).index by {
        assert(s.drop_first()[i] == s[i + 1]);
        assert(s.drop_first()[k] == s[k + 1]);
    }
}

/// How `find_value` changes when an entry with a fresh key is inserted.
pub proof fn lemma_find_insert<P>(s: Seq<IllusionItem<P>>, j: int, item: IllusionItem<P>, key: int)
    requires
        0 <= j <= s.len(),
        find_value(s, item.index as int) is None,
    ensures
        find_value(s.insert(j, item), key) == if key == item.index as int {
            Some(item.value)
        } else {
            find_value(s, key)
        },
    decreases j,
{
    lemma_find_characterization(s, item.index as int);
    let t = s.insert(j, item);
    if j == 0 {
        assert(t[0] == item);
        if key != item.index as int {
            assert(t.drop_first() =~= s);
        }
    } else {
        assert(t[0] == s[0]);
        assert(t.drop_first() =~= s.drop_first().insert(j - 1, item));
        lemma_find_insert(s.drop_first(), j - 1, item, key);
        if s[0].index as int == item.index as int {
            assert(find_value(s, item.index as int) is Some);
        }
    }
}

/// How `find_value` changes when the entry at position `j` is removed.
pub proof fn lemma_find_remove<P>(s: Seq<IllusionItem<P>>, j: int, key: int)
    requires
        strictly_sorted(s),
        0 <= j < s.len(),
    ensures
        find_value(s.remove(j), key) == if key == s[j].index as int {
            None
        } else {
            find_value(s, key)
        },
    decreases j,
{
    let t = s.remove(j);
    if j == 0 {
        assert(t =~= s.drop_first());
        if key == s[0].index as int {
            lemma_find_characterization(s.drop_first(), key);
            match find_value(s.drop_first(), key) {
                Some(v) => {
                    let i = choose|i: int|
                        0 <= i < s.drop_first().len()
                            && (#[trigger] s.drop_first()[i]).index as int == key
                            && s.drop_first()[i].value == v;
                    assert(s.drop_first()[i] == s[i + 1]);
                    assert(s[0].index < s[i + 1].index);
                    assert(false);
                },
                None => {},
            }
        }
    } else {
        assert(t[0] == s[0]);
        assert(t.drop_first() =~= s.drop_first().remove(j - 1));
        lemma_sorted_drop_first(s);
        lemma_find_remove(s.drop_first(), j - 1, key);
        assert(s.drop_first()[j - 1] == s[j]);
    }
}

/// Removing an entry preserves sortedness.
pub proof fn lemma_sorted_remove<P>(s: Seq<IllusionItem<P>>, j: int)
    requires
        strictly_sorted(s),
        0 <= j < s.len(),
    ensures
        strictly_sorted(s.remove(j)),
{
    let t = s.remove(j);
    assert forall|i: int, k: int| 0 <= i < k < t.len() implies (#[trigger] t[i]).index
        < (#[trigger] t[k]).index by {
        assert(t[i] == if i < j { s[i] } else { s[i + 1] });
        assert(t[k] == if k < j { s[k] } else { s[k + 1] });
    }
}

/// Inserting an entry between its sorted neighbours preserves sortedness.
pub proof fn lemma_sorted_insert<P>(s: Seq<IllusionItem<P>>, j: int, item: IllusionItem<P>)
    requires
        strictly_sorted(s),
        0 <= j <= s.len(),
        forall|i: int| 0 <= i < j ==> (#[trigger] s[i]).index < item.index,
        forall|i: int| j <= i < s.len() ==> item.index < (#[trigger] s[i]).index,
    ensures
        strictly_sorted(s.insert(j, item)),
{
    let t = s.insert(j, item);
    assert forall|i: int, k: int| 0 <= i < k < t.len() implies (#[trigger] t[i]).index
        < (#[trigger] t[k]).index by {
        assert(t[i] == if i < j { s[i] } else if i == j { item } else { s[i - 1] });
        assert(t[k] == if k < j { s[k] } else if k == j { item } else { s[k - 1] });
    }
}

/// The sparse backing store of an [`IllusionArray`]: the sorted entry list and
/// the default value shared by every unstored cell.
pub struct InnerIllusionArray<const W: usize, P> {
    pub items: Vec<IllusionItem<P>>,
    pub default: P,
}

impl<const W: usize, P> InnerIllusionArray<W, P> {
    /// The entry stored for index `i`, if any.
    pub open spec fn stored(&self, i: int) -> Option<P> {
        find_value(self.items@, i)
    }

    /// Whether the backing store holds an entry for index `i`.
    pub open spec fn present(&self, i: int) -> bool {
        self.stored(i) is Some
    }

    /// The entry list is sorted strictly by index and every index is in bounds.
    pub open spec fn entries_ok(&self) -> bool {
        &&& strictly_sorted(self.items@)
        &&& forall|j: int| 0 <= j < self.items@.len() ==> (#[trigger] self.items@[j]).index < W
    }

    /// Number of physically present entries.
    pub fn filled_len(&self) -> (r: usize)
        ensures
            r == self.items@.len(),
    {
        self.items.len()
    }

    /// Position of the entry for `index` in the entry list, if present.
    pub(crate) fn find_pos(&self, index: usize) -> (r: Option<usize>)
        requires
            strictly_sorted(self.items@),
        ensures
            match r {
                Some(j) => j < self.items@.len() && self.items@[j as int].index == index
                    && self.stored(index as int) == Some(self.items@[j as int].value),
                None => self.stored(index as int) is None,
            },
    {
        let n = self.items.len();
        let mut j: usize = 0;
        while j < n
            invariant
                n == self.items@.len(),
                j <= n,
                strictly_sorted(self.items@),
                forall|k: int| 0 <= k < j ==> (#[trigger] self.items@[k]).index != index,
            decreases n - j,
        {
            if self.items[j].index == index {
                proof {
                    lemma_find_at(self.items@, j as int);
                }
                return Some(j);
            }
            j += 1;
        }
        proof {
            lemma_find_characterization(self.items@, index as int);
        }
        None
    }

    /// Removes and returns the entry stored for `index`, if any. Every other
    /// index keeps its stored entry.
    pub(crate) fn take_entry(&mut self, index: usize) -> (r: Option<P>)
        requires
            old(self).entries_ok(),
        ensures
            final(self).entries_ok(),
            final(self).default == old(self).default,
            r == old(self).stored(index as int),
            final(self).stored(index as int) is None,
            forall|i: int| i != index ==> final(self).stored(i) == old(self).stored(i),
            final(self).items@.len() == old(self).items@.len() - (if r is Some {
                1int
            } else {
                0int
            }),
            r is None ==> final(self).items@ == old(self).items@,
            r is Some ==> exists|j: int|
                {
                    &&& 0 <= j < old(self).items@.len()
                    &&& (#[trigger] old(self).items@[j]).index == index
                    &&& r == Some(old(self).items@[j].value)
                    &&& final(self).items@ == old(self).items@.remove(j)
                },
    {
        match self.find_pos(index) {
            Some(j) => {
                let ghost s = self.items@;
                let item = self.items.remove(j);
                proof {
                    lemma_find_at(s, j as int);
                    lemma_sorted_remove(s, j as int);
                    assert forall|key: int|
                        find_value(self.items@, key) == if key == index as int {
                            None
                        } else {
                            find_value(s, key)
                        } by {
                        lemma_find_remove(s, j as int, key);
                    }
                }
                Some(item.value)
            },
            None => None,
        }
    }

    /// Stores `value` for `index`, which must not already be present.
    pub(crate) fn put_entry(&mut self, index: usize, value: P)
        requires
            old(self).entries_ok(),
            index < W,
            old(self).stored(index as int) is None,
        ensures
            final(self).entries_ok(),
            final(self).default == old(self).default,
            final(self).stored(index as int) == Some(value),
            forall|i: int| i != index ==> final(self).stored(i) == old(self).stored(i),
            final(self).items@.len() == old(self).items@.len() + 1,
            exists|j: int|
                0 <= j <= old(self).items@.len() && final(self).items@ == old(self).items@.insert(
                    j,
                    IllusionItem { index, value },
                ),
    {
        // Find the sorted insertion position: the first entry with a larger index.
        let n = self.items.len();
        let mut j: usize = 0;
        while j < n && self.items[j].index < index
            invariant
                n == self.items@.len(),
                j <= n,
                strictly_sorted(self.items@),
                forall|k: int| 0 <= k < j ==> (#[trigger] self.items@[k]).index < index,
            decreases n - j,
        {
            j += 1;
        }
        proof {
            lemma_find_characterization(self.items@, index as int);
        }
        let ghost s = self.items@;
        let item = IllusionItem { index, value };
        self.items.insert(j, item);
        proof {
            assert forall|i: int| j <= i < s.len() implies index < (#[trigger] s[i]).index by {
                assert(s[j as int].index <= s[i].index);
            }
            lemma_sorted_insert(s, j as int, item);
            assert forall|key: int|
                find_value(self.items@, key) == if key == index as int {
                    Some(item.value)
                } else {
                    find_value(s, key)
                } by {
                lemma_find_insert(s, j as int, item, key);
            }
        }
    }
}

impl<const W: usize, P: IllusionValue> InnerIllusionArray<W, P> {
    /// Model of the default value.
    pub open spec fn defv(&self) -> P::ModelType {
        self.default.model()
    }

    /// The effective value of cell `i`: the stored value's model if an entry
    /// is present, the default's model otherwise.
    pub open spec fn effective(&self, i: int) -> P::ModelType {
        match self.stored(i) {
            Some(v) => v.model(),
            None => self.defv(),
        }
    }

    /// Well-formedness: sorted in-bounds entries, every stored value valid and
    /// different from the default.
    pub open spec fn wf(&self) -> bool {
        &&& self.entries_ok()
        &&& forall|j: int| 0 <= j < self.items@.len() ==> (#[trigger] self.items@[j]).value.inv()
        &&& forall|j: int|
            0 <= j < self.items@.len() ==> (#[trigger] self.items@[j]).value.model() != self.defv()
        &&& self.default.inv()
    }

    /// Every stored entry is valid and differs from the default.
    pub proof fn lemma_stored_value(&self, i: int)
        requires
            self.wf(),
        ensures
            match self.stored(i) {
                Some(v) => v.inv() && v.model() != self.defv() && 0 <= i < W,
                None => true,
            },
    {
        lemma_find_characterization(self.items@, i);
    }

    /// The effective value of cell `index`, or `None` when out of bounds.
    fn get(&self, index: usize) -> (r: Option<&P>)
        requires
            self.wf(),
        ensures
            match r {
                Some(p) => index < W && p.model() == self.effective(index as int) && p.inv(),
                None => index >= W,
            },
    {
        if index >= W {
            return None;
        }
        proof {
            self.lemma_stored_value(index as int);
        }
        match self.find_pos(index) {
            Some(j) => Some(&self.items[j].value),
            None => Some(&self.default),
        }
    }
}

/// A read handle bound to one cell: the index and a reference to the cell's
/// effective value at the time the handle was produced.
pub struct IllusionArrayHandle<'a, P> {
    pub index: usize,
    pub value: &'a P,
}

impl<'a, P> IllusionArrayHandle<'a, P> {
    /// The effective value this handle was bound to.
    pub fn get(&self) -> (r: &'a P)
        ensures
            r == self.value,
    {
        self.value
    }

    /// Applies `f` to the effective value.
    pub fn mapped<T, F: FnOnce(&P) -> T>(&self, f: F) -> (r: T)
        requires
            call_requires(f, (self.value,)),
        ensures
            call_ensures(f, (self.value,), r),
    {
        f(self.value)
    }

    /// The index this handle is bound to.
    pub fn index(&self) -> (r: usize)
        ensures
            r == self.index,
    {
        self.index
    }
}

/// A write handle bound to one cell: the index and a working copy of the
/// value. Mutations touch only the working copy; passing the handle to
/// [`IllusionArray::commit`] writes it back, which keeps at most one write
/// handle effective at a time.
pub struct IllusionArrayHandleMut<P> {
    pub index: usize,
    pub current: P,
}

impl<P> IllusionArrayHandleMut<P> {
    /// The working copy.
    pub fn get(&self) -> (r: &P)
        ensures
            r == &self.current,
    {
        &self.current
    }

    /// Mutable access to the working copy.
    pub fn get_mut(&mut self) -> (r: &mut P)
        ensures
            *r == old(self).current,
            final(self).index == old(self).index,
            final(self).current == *final(r),
    {
        &mut self.current
    }

    /// Replaces the working copy.
    pub fn set(&mut self, value: P)
        ensures
            final(self).index == old(self).index,
            final(self).current == value,
    {
        self.current = value;
    }

    /// Applies `f` to the working copy.
    pub fn mapped<T, F: FnOnce(&P) -> T>(&self, f: F) -> (r: T)
        requires
            call_requires(f, (&self.current,)),
        ensures
            call_ensures(f, (&self.current,), r),
    {
        f(&self.current)
    }

    /// Passes the whole handle through `f`, returning the reshaped handle.
    pub fn modify<F: FnOnce(Self) -> Self>(self, f: F) -> (r: Self)
        requires
            call_requires(f, (self,)),
        ensures
            call_ensures(f, (self,), r),
    {
        f(self)
    }

    /// The index this handle is bound to.
    pub fn index(&self) -> (r: usize)
        ensures
            r == self.index,
    {
        self.index
    }
}

/// A sparse array that behaves as if it held `W` cells: unstored cells read as
/// the default value, and a cell is stored exactly while its value differs
/// from the default.
pub struct IllusionArray<const W: usize, P> {
    pub inner: InnerIllusionArray<W, P>,
}

impl<const W: usize, P: IllusionValue> IllusionArray<W, P> {
    /// Model of the default value.
    pub open spec fn defv(&self) -> P::ModelType {
        self.inner.defv()
    }

    /// Whether the backing store holds an entry for index `i`.
    pub open spec fn present(&self, i: int) -> bool {
        self.inner.present(i)
    }

    /// The effective value of cell `i`.
    pub open spec fn effective(&self, i: int) -> P::ModelType {
        self.inner.effective(i)
    }

    /// Number of stored entries, as a mathematical value.
    pub open spec fn spec_filled(&self) -> int {
        self.inner.items@.len() as int
    }

    /// Well-formedness of the backing store.
    pub open spec fn wf(&self) -> bool {
        self.inner.wf()
    }

    /// An empty array over the given default value.
    pub fn new(default: P) -> (r: Self)
        requires
            default.inv(),
        ensures
            r.wf(),
            r.defv() == default.model(),
            r.spec_filled() == 0,
            forall|i: int| r.effective(i) == default.model(),
            forall|i: int| !r.present(i),
    {
        let r = IllusionArray { inner: InnerIllusionArray { items: Vec::new(), default } };
        proof {
            assert forall|i: int| r.effective(i) == default.model() && !r.present(i) by {
                assert(r.inner.items@.len() == 0);
            }
        }
        r
    }

    /// Number of physically present entries.
    pub fn filled_len(&self) -> (r: usize)
        ensures
            r == self.spec_filled(),
    {
        self.inner.filled_len()
    }

    /// Default elision: an entry is stored at `i` exactly when the effective
    /// value there differs from the default.
    pub proof fn lemma_default_elision(&self, i: int)
        requires
            self.wf(),
        ensures
            self.present(i) <==> self.effective(i) != self.defv(),
    {
        self.inner.lemma_stored_value(i);
    }

    /// A read handle over cell `index`; `None` exactly when out of bounds.
    pub fn get(&self, index: usize) -> (r: Option<IllusionArrayHandle<P>>)
        requires
            self.wf(),
        ensures
            match r {
                Some(h) => index < W && h.index == index && h.value.inv() && h.value.model()
                    == self.effective(index as int),
                None => index >= W,
            },
    {
        match self.inner.get(index) {
            Some(p) => Some(IllusionArrayHandle { index, value: p }),
            None => None,
        }
    }

    /// A write handle over cell `index`, its working copy started at the
    /// current effective value; `None` exactly when out of bounds.
    pub fn get_mut(&mut self, index: usize) -> (r: Option<IllusionArrayHandleMut<P>>)
        requires
            old(self).wf(),
        ensures
            *final(self) == *old(self),
            match r {
                Some(h) => index < W && h.index == index && h.current.inv() && h.current.model()
                    == old(self).effective(index as int),
                None => index >= W,
            },
    {
        match self.inner.get(index) {
            Some(p) => Some(IllusionArrayHandleMut { index, current: p.dup() }),
            None => None,
        }
    }

    /// Writes a handle's working copy back: the entry is stored (inserted or
    /// overwritten) when the copy differs from the default and removed when it
    /// equals the default, so the elision invariant is re-established.
    pub fn commit(&mut self, h: IllusionArrayHandleMut<P>)
        requires
            old(self).wf(),
            h.index < W,
            h.current.inv(),
        ensures
            final(self).wf(),
            final(self).defv() == old(self).defv(),
            final(self).effective(h.index as int) == h.current.model(),
            final(self).present(h.index as int) == (h.current.model() != old(self).defv()),
            forall|i: int|
                i != h.index ==> final(self).effective(i) == old(self).effective(i) && final(self).present(i) == old(self).present(i),
            final(self).spec_filled() == old(self).spec_filled() - (if old(self).present(
                h.index as int,
            ) {
                1int
            } else {
                0int
            }) + (if h.current.model() != old(self).defv() {
                1int
            } else {
                0int
            }),
    {
        let ghost pre = self.inner;
        let _ = self.inner.take_entry(h.index);
        let ghost mid = self.inner;
        proof {
            assert forall|j: int| 0 <= j < mid.items@.len() implies (#[trigger] mid.items@[j]).value.inv()
                && mid.items@[j].value.model() != mid.defv() by {
                let k = choose|k: int| 0 <= k < pre.items@.len() && mid.items@[j] == pre.items@[k];
                assert(pre.items@[k].value.inv());
            }
        }
        if !h.current.eq_value(&self.inner.default) {
            self.inner.put_entry(h.index, h.current);
            proof {
                let post = self.inner;
                assert forall|j: int| 0 <= j < post.items@.len() implies (#[trigger] post.items@[j]).value.inv()
                    && post.items@[j].value.model() != post.defv() by {
                    if post.items@[j].value != h.current {
                        let k = choose|k: int|
                            0 <= k < mid.items@.len() && post.items@[j] == mid.items@[k];
                        assert(mid.items@[k].value.inv());
                    }
                }
            }
        }
    }

    /// Runs `f` on a fresh write handle for `index` and commits the result;
    /// `false` exactly when out of bounds, in which case nothing changes.
    pub fn try_modify<F: FnOnce(IllusionArrayHandleMut<P>) -> IllusionArrayHandleMut<P>>(
        &mut self,
        index: usize,
        f: F,
    ) -> (r: bool)
        requires
            old(self).wf(),
            forall|h: IllusionArrayHandleMut<P>|
                h.index == index && h.current.inv() ==> #[trigger] call_requires(f, (h,)),
            forall|h: IllusionArrayHandleMut<P>, h2: IllusionArrayHandleMut<P>|
                #[trigger] call_ensures(f, (h,), h2) ==> h2.index == h.index && h2.current.inv(),
        ensures
            r == (index < W),
            final(self).wf(),
            final(self).defv() == old(self).defv(),
            !r ==> *final(self) == *old(self),
            r ==> exists|h0: IllusionArrayHandleMut<P>, h1: IllusionArrayHandleMut<P>|
                {
                    &&& h0.index == index
                    &&& h0.current.inv()
                    &&& h0.current.model() == old(self).effective(index as int)
                    &&& #[trigger] call_ensures(f, (h0,), h1)
                    &&& final(self).effective(index as int) == h1.current.model()
                    &&& forall|i: int|
                        i != index ==> final(self).effective(i) == old(self).effective(i)
                },
    {
        match self.get_mut(index) {
            Some(h) => {
                let ghost h0 = h;
                let h1 = f(h);
                self.commit(h1);
                true
            },
            None => false,
        }
    }

    /// The physically present entries, as `(index, value)` pairs in increasing
    /// index order.
    pub fn real_items<'a>(&'a self) -> (r: Vec<(usize, &'a P)>)
        requires
            self.wf(),
        ensures
            r@.len() == self.spec_filled(),
            forall|j: int|
                0 <= j < r@.len() ==> (#[trigger] r@[j]).0 == self.inner.items@[j].index && r@[j].1
                    == &self.inner.items@[j].value,
    {
        let mut r: Vec<(usize, &P)> = Vec::new();
        let n = self.inner.items.len();
        let mut j: usize = 0;
        while j < n
            invariant
                n == self.inner.items@.len(),
                j <= n,
                r@.len() == j,
                forall|k: int|
                    0 <= k < j ==> (#[trigger] r@[k]).0 == self.inner.items@[k].index && r@[k].1
                        == &self.inner.items@[k].value,
            decreases n - j,
        {
            r.push((self.items_index(j), &self.inner.items[j].value));
            j += 1;
        }
        r
    }

    /// Write handles over the physically present entries, in increasing index
    /// order; each is committed back individually.
    pub fn real_items_mut(&mut self) -> (r: Vec<IllusionArrayHandleMut<P>>)
        requires
            old(self).wf(),
        ensures
            *final(self) == *old(self),
            r@.len() == old(self).spec_filled(),
            forall|j: int|
                0 <= j < r@.len() ==> (#[trigger] r@[j]).index == old(self).inner.items@[j].index
                    && r@[j].current.inv() && r@[j].current.model() == old(self).inner.items@[j].value.model(),
    {
        let mut r: Vec<IllusionArrayHandleMut<P>> = Vec::new();
        let n = self.inner.items.len();
        let mut j: usize = 0;
        while j < n
            invariant
                n == self.inner.items@.len(),
                j <= n,
                r@.len() == j,
                self.wf(),
                forall|k: int|
                    0 <= k < j ==> (#[trigger] r@[k]).index == self.inner.items@[k].index
                        && r@[k].current.inv() && r@[k].current.model()
                        == self.inner.items@[k].value.model(),
            decreases n - j,
        {
            let h = IllusionArrayHandleMut {
                index: self.items_index(j),
                current: self.inner.items[j].value.dup(),
            };
            r.push(h);
            j += 1;
        }
        r
    }

    /// A fresh read cursor over all `W` logical cells.
    pub fn iter<'a>(&'a self) -> (r: IllusionArrayIter<'a, W, P>)
        ensures
            r.inner == &self.inner,
            r.curr_index == 0,
    {
        IllusionArrayIter { inner: &self.inner, curr_index: 0 }
    }

    /// A fresh write cursor over all `W` logical cells; each handle it yields
    /// is committed back individually.
    pub fn iter_mut(&mut self) -> (r: IllusionArrayIterMut)
        ensures
            *final(self) == *old(self),
            r.curr_index == 0,
    {
        IllusionArrayIterMut { curr_index: 0 }
    }

    /// A model-preserving copy of the whole array.
    pub fn duplicate(&self) -> (r: Self)
        requires
            self.wf(),
        ensures
            r.wf(),
            r.defv() == self.defv(),
            r.spec_filled() == self.spec_filled(),
            forall|i: int| r.effective(i) == self.effective(i),
            forall|i: int| r.present(i) == self.present(i),
    {
        let mut items: Vec<IllusionItem<P>> = Vec::new();
        let n = self.inner.items.len();
        let mut j: usize = 0;
        while j < n
            invariant
                n == self.inner.items@.len(),
                j <= n,
                self.wf(),
                items@.len() == j,
                forall|k: int|
                    0 <= k < j ==> (#[trigger] items@[k]).index == self.inner.items@[k].index
                        && items@[k].value.inv() && items@[k].value.model()
                        == self.inner.items@[k].value.model(),
            decreases n - j,
        {
            items.push(
                IllusionItem { index: self.items_index(j), value: self.inner.items[j].value.dup() },
            );
            j += 1;
        }
        let r = IllusionArray { inner: InnerIllusionArray { items, default: self.inner.default.dup() } };
        proof {
            assert forall|i: int|
                (r.present(i) == self.present(i)) && r.effective(i) == self.effective(i) by {
                lemma_find_models(r.inner.items@, self.inner.items@, i);
            }
        }
        r
    }

    /// Totality of iteration: one full sweep of the cursor yields exactly `W`
    /// indices, in increasing order, however few cells are stored.
    pub fn pass_indices(&self) -> (r: Vec<usize>)
        requires
            self.wf(),
        ensures
            r@.len() == W as int,
            forall|k: int| 0 <= k < r@.len() ==> (#[trigger] r@[k]) as int == k,
    {
        let mut it = self.iter();
        let mut r: Vec<usize> = Vec::new();
        while it.curr_index < W
            invariant
                self.wf(),
                it.inner == &self.inner,
                it.curr_index <= W,
                r@.len() == it.curr_index,
                forall|k: int| 0 <= k < r@.len() ==> (#[trigger] r@[k]) as int == k,
            decreases W - it.curr_index,
        {
            match it.next() {
                Some(h) => {
                    r.push(h.index());
                },
                None => {
                    proof {
                        assert(false);
                    }
                },
            }
        }
        r
    }

    /// The index stored at entry position `j`.
    fn items_index(&self, j: usize) -> (r: usize)
        requires
            j < self.inner.items@.len(),
        ensures
            r == self.inner.items@[j as int].index,
    {
        self.inner.items[j].index
    }
}

/// Two entry sequences that agree pairwise on indices and models store the
/// same keys, with values of the same model.
pub proof fn lemma_find_models<P: IllusionValue, Q: IllusionValue<ModelType = P::ModelType>>(
    s: Seq<IllusionItem<P>>,
    t: Seq<IllusionItem<Q>>,
    key: int,
)
    requires
        s.len() == t.len(),
        forall|k: int|
            0 <= k < s.len() ==> (#[trigger] s[k]).index == t[k].index && s[k].value.model()
                == t[k].value.model(),
    ensures
        find_value(s, key) is Some <==> find_value(t, key) is Some,
        match (find_value(s, key), find_value(t, key)) {
            (Some(v), Some(w)) => v.model() == w.model(),
            _ => true,
        },
    decreases s.len(),
{
    if s.len() > 0 {
        if s[0].index as int == key {
        } else {
            assert forall|k: int|
                0 <= k < s.drop_first().len() implies (#[trigger] s.drop_first()[k]).index == t
                .drop_first()[k].index && s.drop_first()[k].value.model() == t.drop_first()[k].value.model() by {
                assert(s.drop_first()[k] == s[k + 1]);
                assert(t.drop_first()[k] == t[k + 1]);
            }
            lemma_find_models(s.drop_first(), t.drop_first(), key);
        }
    }
}

/// Read cursor over every logical cell of an array, in increasing index order.
pub struct IllusionArrayIter<'a, const W: usize, P> {
    pub inner: &'a InnerIllusionArray<W, P>,
    pub curr_index: usize,
}

impl<'a, const W: usize, P: IllusionValue> IllusionArrayIter<'a, W, P> {
    /// The next read handle, or `None` after all `W` cells were visited.
    pub fn next(&mut self) -> (r: Option<IllusionArrayHandle<'a, P>>)
        requires
            old(self).inner.wf(),
        ensures
            final(self).inner == old(self).inner,
            old(self).curr_index < W ==> final(self).curr_index == old(self).curr_index + 1
                && match r {
                Some(h) => h.index == old(self).curr_index && h.value.inv() && h.value.model()
                    == old(self).inner.effective(old(self).curr_index as int),
                None => false,
            },
            old(self).curr_index >= W ==> r is None && final(self).curr_index == old(self).curr_index,
    {
        if self.curr_index < W {
            let handle = match self.inner.get(self.curr_index) {
                Some(p) => IllusionArrayHandle { index: self.curr_index, value: p },
                None => {
                    proof {
                        assert(false);
                    }
                    unreached()
                },
            };
            self.curr_index = self.curr_index + 1;
            Some(handle)
        } else {
            None
        }
    }
}

/// Write cursor over every logical cell of an array, in increasing index
/// order. It yields one working copy at a time; the caller commits each
/// before asking for the next, which preserves the one-writer discipline.
pub struct IllusionArrayIterMut {
    pub curr_index: usize,
}

impl IllusionArrayIterMut {
    /// The next write handle for `arr`, or `None` after all `W` cells.
    pub fn next<const W: usize, P: IllusionValue>(
        &mut self,
        arr: &IllusionArray<W, P>,
    ) -> (r: Option<IllusionArrayHandleMut<P>>)
        requires
            arr.wf(),
        ensures
            old(self).curr_index < W ==> final(self).curr_index == old(self).curr_index + 1
                && match r {
                Some(h) => h.index == old(self).curr_index && h.current.inv() && h.current.model()
                    == arr.effective(old(self).curr_index as int),
                None => false,
            },
            old(self).curr_index >= W ==> r is None && final(self).curr_index == old(self).curr_index,
    {
        if self.curr_index < W {
            let handle = match arr.inner.get(self.curr_index) {
                Some(p) => IllusionArrayHandleMut { index: self.curr_index, current: p.dup() },
                None => {
                    proof {
                        assert(false);
                    }
                    unreached()
                },
            };
            self.curr_index = self.curr_index + 1;
            Some(handle)
        } else {
            None
        }
    }
}

impl<const W: usize, P: IllusionValue> Default for IllusionArray<W, P> {
    /// An empty array over the type's designated default value.
    fn default() -> (r: Self)
        ensures
            r.wf(),
            r.defv() == P::default_model(),
            r.spec_filled() == 0,
            forall|i: int| r.effective(i) == P::default_model(),
    {
        IllusionArray::new(P::default_value())
    }
}

} // verus!
