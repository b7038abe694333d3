//! Stacked canvases: an opaque base layer under any number of transparent
//! layers, each drawn at its own position to produce the resulting canvas.

use vstd::prelude::*;
use vstd::string::*;
use vstd::utf8::encode_utf8;

use super::drawable::{drawn_cell, Drawable};
use super::PixelCanvas;
use crate::pixels::maybe::MaybePixel;
use crate::pixels::position::{IntoPixelStrictPosition, PixelPosition, PixelStrictPosition};
use crate::pixels::{Pixel, PixelInterface, PixelMutInterface};

verus! {

/// Byte-for-byte equality of two string slices.
pub fn str_eq(a: &str, b: &str) -> (r: bool)
    ensures
        r == (a.spec_bytes() == b.spec_bytes()),
{
    let ab = a.as_bytes();
    let bb = b.as_bytes();
    if ab.len() != bb.len() {
        proof {
            assert(a.spec_bytes().len() != b.spec_bytes().len());
        }
        return false;
    }
    let n = ab.len();
    let mut k: usize = 0;
    while k < n
        invariant
            n == ab@.len(),
            n == bb@.len(),
            ab@ == a.spec_bytes(),
            bb@ == b.spec_bytes(),
            k <= n,
            forall|q: int| 0 <= q < k ==> ab@[q] == bb@[q],
        decreases n - k,
    {
        if ab[k] != bb[k] {
            return false;
        }
        k += 1;
    }
    proof {
        assert(a.spec_bytes() =~= b.spec_bytes());
    }
    true
}

/// One transparent layer: an optional tag, a drawing position and a canvas
/// of optional pixels.
pub struct LayerData<const H: usize, const W: usize> {
    pub layer_tag: Option<String>,
    pub drawing_position: PixelStrictPosition<H, W>,
    pub canvas: PixelCanvas<H, W, MaybePixel>,
}

impl<const H: usize, const W: usize> LayerData<H, W> {
    /// Position in bounds and a well-formed canvas.
    pub open spec fn wf(&self) -> bool {
        &&& self.drawing_position.wf()
        &&& self.canvas.wf()
    }

    /// The tag, as its bytes.
    pub open spec fn tag_bytes(&self) -> Option<Seq<u8>> {
        match self.layer_tag {
            Some(s) => Some(encode_utf8(s@)),
            None => None,
        }
    }

    /// A layer drawn at the top left corner.
    pub fn new(layer_tag: Option<String>, canvas: PixelCanvas<H, W, MaybePixel>) -> (r: Self)
        requires
            H >= 1,
            W >= 1,
            canvas.wf(),
        ensures
            r.wf(),
            r.layer_tag == layer_tag,
            r.drawing_position.raw == (PixelPosition { row: 0usize, column: 0usize }),
            r.canvas == canvas,
    {
        LayerData {
            drawing_position: PixelStrictPosition { raw: PixelPosition { row: 0, column: 0 } },
            layer_tag,
            canvas,
        }
    }

    /// An untagged layer drawn at the top left corner.
    pub fn new_without_tag(canvas: PixelCanvas<H, W, MaybePixel>) -> (r: Self)
        requires
            H >= 1,
            W >= 1,
            canvas.wf(),
        ensures
            r.wf(),
            r.layer_tag is None,
            r.drawing_position.raw == (PixelPosition { row: 0usize, column: 0usize }),
            r.canvas == canvas,
    {
        Self::new(None, canvas)
    }

    /// A layer whose canvas is built by `canvas_builder` from a fresh one.
    pub fn build_new<F: FnOnce(PixelCanvas<H, W, MaybePixel>) -> PixelCanvas<H, W, MaybePixel>>(
        layer_tag: Option<String>,
        canvas_builder: F,
    ) -> (r: Self)
        requires
            H >= 1,
            W >= 1,
            forall|c: PixelCanvas<H, W, MaybePixel>| c.wf() ==> #[trigger] call_requires(
                canvas_builder,
                (c,),
            ),
            forall|c: PixelCanvas<H, W, MaybePixel>, c2: PixelCanvas<H, W, MaybePixel>|
                #[trigger] call_ensures(canvas_builder, (c,), c2) ==> c2.wf(),
        ensures
            r.wf(),
            r.layer_tag == layer_tag,
            r.drawing_position.raw == (PixelPosition { row: 0usize, column: 0usize }),
            exists|c: PixelCanvas<H, W, MaybePixel>|
                #[trigger] call_ensures(canvas_builder, (c,), r.canvas),
    {
        let canvas = canvas_builder(PixelCanvas::<H, W, MaybePixel>::default());
        Self::new(layer_tag, canvas)
    }

    /// An untagged layer whose canvas is built by `canvas_builder`.
    pub fn build_new_without_tag<F: FnOnce(PixelCanvas<H, W, MaybePixel>) -> PixelCanvas<
        H,
        W,
        MaybePixel,
    >>(canvas_builder: F) -> (r: Self)
        requires
            H >= 1,
            W >= 1,
            forall|c: PixelCanvas<H, W, MaybePixel>| c.wf() ==> #[trigger] call_requires(
                canvas_builder,
                (c,),
            ),
            forall|c: PixelCanvas<H, W, MaybePixel>, c2: PixelCanvas<H, W, MaybePixel>|
                #[trigger] call_ensures(canvas_builder, (c,), c2) ==> c2.wf(),
        ensures
            r.wf(),
            r.layer_tag is None,
            r.drawing_position.raw == (PixelPosition { row: 0usize, column: 0usize }),
    {
        Self::build_new(None, canvas_builder)
    }

    /// The tag, if any.
    pub fn layer_tag(&self) -> (r: Option<&String>)
        ensures
            match r {
                Some(s) => self.layer_tag == Some(*s),
                None => self.layer_tag is None,
            },
    {
        self.layer_tag.as_ref()
    }

    /// This layer, drawn at the given position instead.
    pub fn with_drawing_position<T: IntoPixelStrictPosition<H, W>>(self, start_position: T) -> (r:
        Self)
        requires
            start_position.into_wf(),
        ensures
            r.layer_tag == self.layer_tag,
            r.canvas == self.canvas,
            r.drawing_position.wf(),
            r.drawing_position.raw.row as int == start_position.into_row(),
            r.drawing_position.raw.column as int == start_position.into_column(),
    {
        LayerData {
            drawing_position: start_position.into_pixel_strict_position(),
            layer_tag: self.layer_tag,
            canvas: self.canvas,
        }
    }

    /// This layer, tagged.
    pub fn with_layer_tag(self, tag: String) -> (r: Self)
        ensures
            r.layer_tag == Some(tag),
            r.canvas == self.canvas,
            r.drawing_position == self.drawing_position,
    {
        LayerData {
            layer_tag: Some(tag),
            drawing_position: self.drawing_position,
            canvas: self.canvas,
        }
    }

    /// This layer, its canvas passed through `modifier`.
    pub fn with_modified_canvas<F: FnOnce(PixelCanvas<H, W, MaybePixel>) -> PixelCanvas<
        H,
        W,
        MaybePixel,
    >>(self, modifier: F) -> (r: Self)
        requires
            call_requires(modifier, (self.canvas,)),
            forall|c2: PixelCanvas<H, W, MaybePixel>|
                #[trigger] call_ensures(modifier, (self.canvas,), c2) ==> c2.wf(),
        ensures
            r.layer_tag == self.layer_tag,
            r.drawing_position == self.drawing_position,
            r.canvas.wf(),
            call_ensures(modifier, (self.canvas,), r.canvas),
    {
        LayerData {
            layer_tag: self.layer_tag,
            drawing_position: self.drawing_position,
            canvas: modifier(self.canvas),
        }
    }

    /// Moves the drawing position through `updater`.
    pub fn update_drawing_position<F: FnOnce(PixelStrictPosition<H, W>) -> PixelStrictPosition<
        H,
        W,
    >>(&mut self, updater: F)
        requires
            call_requires(updater, (old(self).drawing_position,)),
            forall|p2: PixelStrictPosition<H, W>|
                #[trigger] call_ensures(updater, (old(self).drawing_position,), p2) ==> p2.wf(),
        ensures
            final(self).layer_tag == old(self).layer_tag,
            final(self).canvas == old(self).canvas,
            final(self).drawing_position.wf(),
            call_ensures(updater, (old(self).drawing_position,), final(self).drawing_position),
    {
        self.drawing_position = updater(self.drawing_position);
    }
}

/// Why a layer cannot be added.
#[derive(Clone, Copy, PartialEq, Eq, Structural, Debug)]
pub enum AddLayerError {
    /// A top layer with the same tag already exists.
    LayerTagDuplicated,
}

/// How a top layer is looked up: by tag or by insertion index.
#[derive(Clone, Debug)]
pub enum TopLayerId {
    /// Look up by tag.
    Tag(String),
    /// Look up by insertion index.
    Index(usize),
}

/// The pixel a cell shows after the given layers were drawn over a base
/// cell, each at its own position, in order (later layers drawn over
/// earlier ones).
pub open spec fn layered_cell<const H: usize, const W: usize, P: PixelMutInterface>(
    layers: Seq<LayerData<H, W>>,
    base_cell: P,
    i: int,
    j: int,
) -> P
    decreases layers.len(),
{
    if layers.len() == 0 {
        base_cell
    } else {
        drawn_cell(
            layers.last().canvas.table,
            layers.last().drawing_position.raw.row as int,
            layers.last().drawing_position.raw.column as int,
            layered_cell(layers.drop_last(), base_cell, i, j),
            i,
            j,
        )
    }
}

/// An opaque base canvas under a stack of transparent layers.
pub struct LayeredCanvas<const H: usize, const W: usize, P = Pixel> {
    pub base_layer: PixelCanvas<H, W, P>,
    pub top_layers: Vec<LayerData<H, W>>,
}

impl<const H: usize, const W: usize, P: PixelInterface> LayeredCanvas<H, W, P> {
    /// Base and every layer well-formed.
    pub open spec fn wf(&self) -> bool {
        &&& self.base_layer.wf()
        &&& forall|k: int|
            0 <= k < self.top_layers@.len() ==> (#[trigger] self.top_layers@[k]).wf()
    }

    /// Whether some stored layer carries exactly these tag bytes.
    pub open spec fn has_tag(&self, tag: Seq<u8>) -> bool {
        exists|k: int|
            0 <= k < self.top_layers@.len() && (#[trigger] self.top_layers@[k]).tag_bytes() == Some(
                tag,
            )
    }

    /// Adds a top layer; refused when its tag is already taken. On success
    /// the new layer's index is returned.
    pub fn new_layer(&mut self, layer_data: LayerData<H, W>) -> (r: Result<usize, AddLayerError>)
        requires
            old(self).wf(),
            layer_data.wf(),
        ensures
            final(self).wf(),
            final(self).base_layer == old(self).base_layer,
            match r {
                Ok(idx) => {
                    &&& idx == old(self).top_layers@.len()
                    &&& final(self).top_layers@ == old(self).top_layers@.push(layer_data)
                    &&& match layer_data.tag_bytes() {
                        Some(tag) => !old(self).has_tag(tag),
                        None => true,
                    }
                },
                Err(e) => {
                    &&& e == AddLayerError::LayerTagDuplicated
                    &&& *final(self) == *old(self)
                    &&& match layer_data.tag_bytes() {
                        Some(tag) => old(self).has_tag(tag),
                        None => false,
                    }
                },
            },
    {
        match layer_data.layer_tag.as_ref() {
            Some(tag) => {
                let n = self.top_layers.len();
                let mut k: usize = 0;
                while k < n
                    invariant
                        self.wf(),
                        n == self.top_layers@.len(),
                        k <= n,
                        layer_data.tag_bytes() == Some(encode_utf8(tag@)),
                        forall|q: int|
                            0 <= q < k ==> (#[trigger] self.top_layers@[q]).tag_bytes() != Some(
                                encode_utf8(tag@),
                            ),
                    decreases n - k,
                {
                    match self.top_layers[k].layer_tag.as_ref() {
                        Some(existing) => {
                            let existing_str = existing.as_str();
                            let tag_str = tag.as_str();
                            if str_eq(existing_str, tag_str) {
                                proof {
                                    assert(encode_utf8(existing@) == encode_utf8(tag@));
                                }
                                return Err(AddLayerError::LayerTagDuplicated);
                            }
                        },
                        None => {},
                    }
                    k += 1;
                }
                let idx = self.top_layers.len();
                self.top_layers.push(layer_data);
                Ok(idx)
            },
            None => {
                let idx = self.top_layers.len();
                self.top_layers.push(layer_data);
                Ok(idx)
            },
        }
    }

    /// The base with every top layer drawn on it at its own position, in
    /// insertion order: each cell is the fold of the layers' drawings over
    /// the base cell. The layered canvas itself is untouched.
    pub fn get_resulting_canvas(&self) -> (r: PixelCanvas<H, W, P>) where P: PixelMutInterface
        requires
            self.wf(),
        ensures
            r.wf(),
            r.defv() == self.base_layer.defv(),
            forall|i: int, j: int|
                0 <= i < H && 0 <= j < W ==> r.cell(i, j) == layered_cell(
                    self.top_layers@,
                    self.base_layer.cell(i, j),
                    i,
                    j,
                ),
            forall|i: int, j: int|
                !(0 <= i < H && 0 <= j < W) ==> r.cell(i, j) == self.base_layer.cell(i, j),
    {
        let mut base = self.base_layer.duplicate();
        proof {
            assert(self.top_layers@.subrange(0, 0) =~= Seq::<LayerData<H, W>>::empty());
        }
        let n = self.top_layers.len();
        let mut k: usize = 0;
        while k < n
            invariant
                self.wf(),
                n == self.top_layers@.len(),
                k <= n,
                base.wf(),
                base.defv() == self.base_layer.defv(),
                forall|i: int, j: int|
                    0 <= i < H && 0 <= j < W ==> base.cell(i, j) == layered_cell(
                        self.top_layers@.subrange(0, k as int),
                        self.base_layer.cell(i, j),
                        i,
                        j,
                    ),
                forall|i: int, j: int|
                    !(0 <= i < H && 0 <= j < W) ==> base.cell(i, j) == self.base_layer.cell(i, j),
            decreases n - k,
        {
            let ghost pre = base;
            let top = &self.top_layers[k];
            top.canvas.draw_on_exact(top.drawing_position, &mut base);
            proof {
                assert(self.top_layers@.subrange(0, k as int + 1).drop_last() =~= self.top_layers@.subrange(
                    0,
                    k as int,
                ));
                assert(self.top_layers@.subrange(0, k as int + 1).last() == self.top_layers@[k as int]);
                assert forall|i: int, j: int| 0 <= i < H && 0 <= j < W implies base.cell(i, j)
                    == layered_cell(
                    self.top_layers@.subrange(0, k as int + 1),
                    self.base_layer.cell(i, j),
                    i,
                    j,
                ) by {
                    assert(base.cell(i, j) == drawn_cell(
                        self.top_layers@[k as int].canvas.table,
                        self.top_layers@[k as int].drawing_position.raw.row as int,
                        self.top_layers@[k as int].drawing_position.raw.column as int,
                        pre.cell(i, j),
                        i,
                        j,
                    ));
                }
                assert forall|i: int, j: int| !(0 <= i < H && 0 <= j < W) implies base.cell(i, j)
                    == self.base_layer.cell(i, j) by {
                    assert(base.cell(i, j) == pre.cell(i, j));
                }
            }
            k += 1;
        }
        proof {
            assert(self.top_layers@.subrange(0, n as int) =~= self.top_layers@);
        }
        base
    }

    /// The base layer.
    pub fn base_layer(&self) -> (r: &PixelCanvas<H, W, P>)
        ensures
            *r == self.base_layer,
    {
        &self.base_layer
    }

    /// The base layer, mutably.
    pub fn base_layer_mut(&mut self) -> (r: &mut PixelCanvas<H, W, P>)
        ensures
            *r == old(self).base_layer,
            final(self).base_layer == *final(r),
            final(self).top_layers == old(self).top_layers,
    {
        &mut self.base_layer
    }

    /// The index of the layer `layer_id` names, if any.
    pub fn top_layer_index(&self, layer_id: &TopLayerId) -> (r: Option<usize>)
        requires
            self.wf(),
        ensures
            match r {
                Some(idx) => idx < self.top_layers@.len() && match *layer_id {
                    TopLayerId::Tag(ref tag) => self.top_layers@[idx as int].tag_bytes() == Some(
                        encode_utf8(tag@),
                    ) && forall|q: int|
                        0 <= q < idx ==> (#[trigger] self.top_layers@[q]).tag_bytes() != Some(
                            encode_utf8(tag@),
                        ),
                    TopLayerId::Index(given) => idx == given,
                },
                None => match *layer_id {
                    TopLayerId::Tag(ref tag) => !self.has_tag(encode_utf8(tag@)),
                    TopLayerId::Index(given) => given >= self.top_layers@.len(),
                },
            },
    {
        match *layer_id {
            TopLayerId::Tag(ref tag) => {
                let n = self.top_layers.len();
                let mut k: usize = 0;
                while k < n
                    invariant
                        self.wf(),
                        *layer_id == TopLayerId::Tag(*tag),
                        n == self.top_layers@.len(),
                        k <= n,
                        forall|q: int|
                            0 <= q < k ==> (#[trigger] self.top_layers@[q]).tag_bytes() != Some(
                                encode_utf8(tag@),
                            ),
                    decreases n - k,
                {
                    match self.top_layers[k].layer_tag.as_ref() {
                        Some(existing) => {
                            let existing_str = existing.as_str();
                            let tag_str = tag.as_str();
                            if str_eq(existing_str, tag_str) {
                                proof {
                                    assert(encode_utf8(existing@) == encode_utf8(tag@));
                                    assert(self.top_layers@[k as int].tag_bytes() == Some(
                                        encode_utf8(existing@),
                                    ));
                                }
                                return Some(k);
                            }
                        },
                        None => {},
                    }
                    k += 1;
                }
                None
            },
            TopLayerId::Index(index) => {
                if index < self.top_layers.len() {
                    Some(index)
                } else {
                    None
                }
            },
        }
    }

    /// The layer `layer_id` names, if any.
    pub fn top_layer(&self, layer_id: &TopLayerId) -> (r: Option<&LayerData<H, W>>)
        requires
            self.wf(),
        ensures
            match r {
                Some(layer) => match *layer_id {
                    TopLayerId::Tag(ref tag) => exists|idx: int|
                        {
                            &&& 0 <= idx < self.top_layers@.len()
                            &&& *layer == #[trigger] self.top_layers@[idx]
                            &&& self.top_layers@[idx].tag_bytes() == Some(encode_utf8(tag@))
                            &&& forall|q: int|
                                0 <= q < idx ==> (#[trigger] self.top_layers@[q]).tag_bytes()
                                    != Some(encode_utf8(tag@))
                        },
                    TopLayerId::Index(given) => given < self.top_layers@.len() && *layer
                        == self.top_layers@[given as int],
                },
                None => match *layer_id {
                    TopLayerId::Tag(ref tag) => !self.has_tag(encode_utf8(tag@)),
                    TopLayerId::Index(given) => given >= self.top_layers@.len(),
                },
            },
    {
        match self.top_layer_index(layer_id) {
            Some(idx) => Some(&self.top_layers[idx]),
            None => None,
        }
    }

    /// The layer at a known index, mutably; pair with
    /// [`LayeredCanvas::top_layer_index`].
    pub fn top_layer_mut(&mut self, index: usize) -> (r: &mut LayerData<H, W>)
        requires
            index < old(self).top_layers@.len(),
        ensures
            *r == old(self).top_layers@[index as int],
            final(self).base_layer == old(self).base_layer,
            final(self).top_layers@ == old(self).top_layers@.update(index as int, *final(r)),
    {
        &mut self.top_layers[index]
    }
}

impl<const H: usize, const W: usize, P: PixelMutInterface> LayeredCanvas<H, W, P> {
    /// A layered canvas whose base is filled with one color.
    pub fn new(color: P::ColorType) -> (r: Self)
        ensures
            r.wf(),
            r.top_layers@.len() == 0,
            r.base_layer.defv() == P::default_model(),
    {
        LayeredCanvas { base_layer: PixelCanvas::new(color), top_layers: Vec::new() }
    }
}

impl<const H: usize, const W: usize, P: PixelInterface> Default for LayeredCanvas<H, W, P> {
    /// An empty layered canvas over the default base.
    fn default() -> (r: Self)
        ensures
            r.wf(),
            r.top_layers@.len() == 0,
            r.base_layer.defv() == P::default_model(),
    {
        LayeredCanvas { base_layer: PixelCanvas::default(), top_layers: Vec::new() }
    }
}


} // verus!
