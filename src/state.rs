use vstd::prelude::*;
use vstd::arithmetic::div_mod::lemma_fundamental_div_mod;
use crate::builder::FromBuilder;
use crate::cpu::{index_of, window, TensorCpu};
use crate::model::{ModelInfo, ModelVersion};
use crate::ops::TensorOp;
use crate::shape::{Axis, Shape, TensorError};
use crate::tensor::{TensorGpu, TensorView};

verus! {

/// Settings of a batched recurrent state.
/// - `max_batch`: the number of independent slots.
/// - `chunk_size`: the number of consecutive layers held in one device buffer;
///   the state is split so that no buffer outgrows the device's binding limit.
pub struct StateBuilder<C> {
    pub context: C,
    pub info: ModelInfo,
    pub max_batch: usize,
    pub chunk_size: usize,
}

/// Rows of the attention state of one layer: last token, then the running
/// sums (V4) or one row per head (V5, V6).
pub open spec fn att_rows_of(info: ModelInfo) -> nat {
    match info.version {
        ModelVersion::V4 => 4,
        _ => (info.num_head + 1) as nat,
    }
}

/// Rows of the whole state of one layer: the attention state, then the last
/// token of the feed-forward block.
pub open spec fn layer_rows_of(info: ModelInfo) -> nat {
    att_rows_of(info) + 1
}

impl<C: Clone> StateBuilder<C> {
    /// One batch, all layers in one chunk.
    pub fn new(context: &C, info: &ModelInfo) -> (r: Self)
        ensures
            r.info == *info,
            r.max_batch == 1,
            r.chunk_size == info.num_layer,
    {
        StateBuilder { context: context.clone(), info: *info, max_batch: 1, chunk_size: info.num_layer }
    }
}

impl<C> StateBuilder<C> {
    /// Where each layer's state lies, for these settings.
    pub fn layout(&self) -> (r: StateLayout)
        ensures
            r.info == self.info,
            r.max_batch == self.max_batch,
            r.chunk_size == self.chunk_size,
    {
        StateLayout { info: self.info, max_batch: self.max_batch, chunk_size: self.chunk_size }
    }

    /// Builds the state.
    pub fn build<S: FromBuilder<Builder = Self>>(self) -> Result<S, S::Error> {
        S::from_builder(self)
    }

    /// Builds the host copy of a state.
    pub fn build_backed<S: FromBuilder<Builder = Self>>(self) -> Result<S, S::Error> {
        S::from_builder(self)
    }

    pub fn with_max_batch(self, value: usize) -> (r: Self)
        ensures
            r.context == self.context,
            r.info == self.info,
            r.max_batch == value,
            r.chunk_size == self.chunk_size,
    {
        StateBuilder { max_batch: value, ..self }
    }

    pub fn with_chunk_size(self, value: usize) -> (r: Self)
        ensures
            r.context == self.context,
            r.info == self.info,
            r.max_batch == self.max_batch,
            r.chunk_size == value,
    {
        StateBuilder { chunk_size: value, ..self }
    }
}

/// Where each layer's state lies: the layers are cut into chunks of
/// `chunk_size` consecutive layers, each chunk one tensor of shape
/// `[num_emb, rows × layers, max_batch]`, in which a layer has its attention
/// rows, then its feed-forward row.
#[derive(Debug, Clone, Copy, PartialEq, Eq, Structural, Hash)]
pub struct StateLayout {
    pub info: ModelInfo,
    pub max_batch: usize,
    pub chunk_size: usize,
}

impl StateLayout {
    /// Number of chunks: the layers divided by the chunk size, rounded up.
    pub open spec fn spec_num_chunks(&self) -> nat {
        let n = self.info.num_layer as nat;
        let cs = self.chunk_size as nat;
        if n % cs == 0 {
            n / cs
        } else {
            n / cs + 1
        }
    }

    /// Number of layers held by chunk `chunk`: the chunk size, but for a last
    /// chunk that holds what is left.
    pub open spec fn spec_chunk_layers(&self, chunk: nat) -> nat {
        let n = self.info.num_layer as nat;
        let cs = self.chunk_size as nat;
        if (chunk + 1) * cs <= n {
            cs
        } else {
            (n - chunk * cs) as nat
        }
    }

    /// Layers held by the chunks before `chunk`.
    pub open spec fn layers_before(&self, chunk: nat) -> nat
        decreases chunk,
    {
        if chunk == 0 {
            0
        } else {
            self.layers_before((chunk - 1) as nat) + self.spec_chunk_layers((chunk - 1) as nat)
        }
    }

    pub fn num_chunks(&self) -> (r: usize)
        requires
            self.chunk_size > 0,
        ensures
            r == self.spec_num_chunks(),
    {
        let n = self.info.num_layer;
        let cs = self.chunk_size;
        if n % cs == 0 {
            n / cs
        } else {
            proof {
                lemma_fundamental_div_mod(n as int, cs as int);
                assert((n as int) / (cs as int) < n) by (nonlinear_arith)
                    requires
                        n == cs * ((n as int) / (cs as int)) + (n as int) % (cs as int),
                        (n as int) % (cs as int) > 0,
                        cs > 0,
                ;
            }
            n / cs + 1
        }
    }

    pub fn chunk_layers(&self, chunk: usize) -> (r: usize)
        requires
            self.chunk_size > 0,
            chunk < self.spec_num_chunks(),
        ensures
            r == self.spec_chunk_layers(chunk as nat),
    {
        proof {
            self.lemma_chunk_starts_inside(chunk as nat);
        }
        let n = self.info.num_layer;
        let cs = self.chunk_size;
        let start = chunk * cs;
        proof {
            assert((chunk + 1) * cs == chunk * cs + cs) by (nonlinear_arith);
        }
        if cs <= n - start {
            cs
        } else {
            n - start
        }
    }

    proof fn lemma_chunk_starts_inside(&self, chunk: nat)
        requires
            self.chunk_size > 0,
            chunk < self.spec_num_chunks(),
        ensures
            chunk * self.chunk_size < self.info.num_layer,
    {
        let n = self.info.num_layer as int;
        let cs = self.chunk_size as int;
        lemma_fundamental_div_mod(n, cs);
        let q = n / cs;
        let r = n % cs;
        if chunk < q {
            assert(chunk * cs < n) by (nonlinear_arith)
                requires
                    chunk < q,
                    n == cs * q + r,
                    r >= 0,
                    cs > 0,
            ;
        } else {
            assert(chunk == q && r > 0);
            assert(chunk * cs < n) by (nonlinear_arith)
                requires
                    chunk == q,
                    n == cs * q + r,
                    r > 0,
            ;
        }
    }

    /// The chunks before `chunk` hold the first `min(chunk × chunk_size, num_layer)` layers.
    proof fn lemma_layers_before(&self, chunk: nat)
        requires
            self.chunk_size > 0,
            chunk <= self.spec_num_chunks(),
        ensures
            self.layers_before(chunk) == if chunk * self.chunk_size <= self.info.num_layer {
                chunk * self.chunk_size
            } else {
                self.info.num_layer as int
            },
        decreases chunk,
    {
        let n = self.info.num_layer as int;
        let cs = self.chunk_size as int;
        if chunk > 0 {
            let k = (chunk - 1) as nat;
            self.lemma_layers_before(k);
            self.lemma_chunk_starts_inside(k);
            assert(k * cs <= n);
            assert((k + 1) * cs == k * cs + cs) by (nonlinear_arith);
            assert(chunk * cs == k * cs + cs) by (nonlinear_arith)
                requires
                    chunk == k + 1,
            ;
            assert(self.layers_before(chunk) == self.layers_before(k) + self.spec_chunk_layers(k));
        } else {
            assert(chunk * cs == 0) by (nonlinear_arith)
                requires
                    chunk == 0,
            ;
        }
    }

    proof fn lemma_chunk_layers_bound(&self, chunk: nat)
        requires
            self.chunk_size > 0,
            chunk < self.spec_num_chunks(),
        ensures
            self.spec_chunk_layers(chunk) <= self.chunk_size,
    {
        self.lemma_chunk_starts_inside(chunk);
        let cs = self.chunk_size as int;
        assert((chunk + 1) * cs == chunk * cs + cs) by (nonlinear_arith);
    }

    /// The chunks together hold exactly the model's layers.
    pub proof fn lemma_chunks_cover_layers(&self)
        requires
            self.chunk_size > 0,
        ensures
            self.layers_before(self.spec_num_chunks()) == self.info.num_layer,
    {
        let n = self.info.num_layer as int;
        let cs = self.chunk_size as int;
        lemma_fundamental_div_mod(n, cs);
        let q = n / cs;
        let r = n % cs;
        let m = self.spec_num_chunks() as int;
        assert(m * cs >= n) by (nonlinear_arith)
            requires
                n == cs * q + r,
                0 <= r < cs,
                m == if r == 0 { q } else { q + 1 },
        ;
        self.lemma_layers_before(m as nat);
    }

    /// The chunk that holds `layer`, and the layer's place in that chunk.
    pub fn locate(&self, layer: usize) -> (r: Result<(usize, usize), TensorError>)
        requires
            self.chunk_size > 0,
        ensures
            layer < self.info.num_layer ==> r == Ok::<(usize, usize), TensorError>(
                ((layer / self.chunk_size) as usize, (layer % self.chunk_size) as usize),
            ),
            layer >= self.info.num_layer ==> r == Err::<(usize, usize), TensorError>(
                TensorError::LayerOutOfRange { layer, max: self.info.num_layer },
            ),
            r matches Ok((chunk, index)) ==> chunk < self.spec_num_chunks() && index
                < self.spec_chunk_layers(chunk as nat) && self.layers_before(chunk as nat) + index
                == layer,
    {
        if layer >= self.info.num_layer {
            return Err(TensorError::LayerOutOfRange { layer, max: self.info.num_layer });
        }
        let chunk = layer / self.chunk_size;
        let index = layer % self.chunk_size;
        proof {
            let n = self.info.num_layer as int;
            let cs = self.chunk_size as int;
            lemma_fundamental_div_mod(layer as int, cs);
            lemma_fundamental_div_mod(n, cs);
            let m = self.spec_num_chunks() as int;
            assert(chunk < m) by (nonlinear_arith)
                requires
                    layer == cs * chunk + index,
                    0 <= index < cs,
                    layer < n,
                    n == cs * (n / cs) + n % cs,
                    0 <= n % cs < cs,
                    m == if n % cs == 0 { n / cs } else { n / cs + 1 },
            ;
            self.lemma_layers_before(chunk as nat);
            self.lemma_chunk_starts_inside(chunk as nat);
            assert(chunk * cs + index == layer) by (nonlinear_arith)
                requires
                    layer == cs * chunk + index,
            ;
            assert((chunk + 1) * cs == chunk * cs + cs) by (nonlinear_arith);
        }
        Ok((chunk, index))
    }
}

impl StateLayout {
    /// Shape of the tensor of chunk `chunk`.
    pub open spec fn spec_chunk_shape(&self, chunk: nat) -> Shape {
        Shape {
            c: self.info.num_emb,
            t: (layer_rows_of(self.info) * self.spec_chunk_layers(chunk)) as usize,
            b: self.max_batch,
        }
    }

    /// The sizes of the layout fit a `usize`.
    pub open spec fn fits(&self) -> bool {
        &&& self.chunk_size > 0
        &&& layer_rows_of(self.info) * self.chunk_size <= usize::MAX
        &&& layer_rows_of(self.info) * self.info.num_layer <= usize::MAX
        &&& self.info.num_emb * (layer_rows_of(self.info) * self.chunk_size) * self.max_batch * 4
            <= usize::MAX
    }

    /// Shape of a host copy of one slot of the state: the rows of all layers,
    /// one layer after another.
    pub open spec fn spec_backed_shape(&self) -> Shape {
        Shape {
            c: self.info.num_emb,
            t: (layer_rows_of(self.info) * self.info.num_layer) as usize,
            b: 1,
        }
    }

    pub fn backed_shape(&self) -> (r: Shape)
        requires
            self.fits(),
        ensures
            r == self.spec_backed_shape(),
    {
        let rows = self.att_rows() + 1;
        Shape::new(self.info.num_emb, rows * self.info.num_layer, 1)
    }

    /// The last token seen by the feed-forward block of `layer`, read out of
    /// `backed`, a host copy of one slot of the state.
    pub fn embed<T: Copy>(&self, layer: usize, backed: &TensorCpu<T>) -> (r: Result<
        TensorCpu<T>,
        TensorError,
    >)
        requires
            self.fits(),
        ensures
            layer >= self.info.num_layer ==> r == Err::<TensorCpu<T>, TensorError>(
                TensorError::LayerOutOfRange { layer, max: self.info.num_layer },
            ),
            layer < self.info.num_layer ==> match backed.shape().check_spec(
                self.spec_backed_shape(),
            ) {
                Err(e) => r == Err::<TensorCpu<T>, TensorError>(e),
                Ok(_) => r matches Ok(x) && x.shape() == Shape::new_spec(self.info.num_emb, 1, 1)
                    && x.data() == window(
                    backed.data(),
                    backed.shape(),
                    Shape::new_spec(
                        0,
                        (layer * layer_rows_of(self.info) + att_rows_of(self.info)) as usize,
                        0,
                    ),
                    Shape::new_spec(self.info.num_emb, 1, 1),
                ),
            },
    {
        if layer >= self.info.num_layer {
            return Err(TensorError::LayerOutOfRange { layer, max: self.info.num_layer });
        }
        let shape = self.backed_shape();
        backed.get_shape().check(shape)?;
        let rows = self.att_rows() + 1;
        proof {
            assert(layer * rows + rows <= rows * self.info.num_layer) by (nonlinear_arith)
                requires
                    layer < self.info.num_layer,
                    rows >= 0,
            ;
        }
        let row = layer * rows + (rows - 1);
        let x = backed.slice(Axis::Full, Axis::Index(row), Axis::Full);
        match x {
            Ok(x) => Ok(x),
            Err(e) => {
                proof {
                    assert(false);
                }
                Err(e)
            },
        }
    }

    /// The rows of chunk `chunk` out of `backed`, a host copy of one slot of
    /// the state, to be written into one slot of that chunk.
    pub fn backed_chunk<T: Copy>(&self, chunk: usize, backed: &TensorCpu<T>) -> (r: Result<
        TensorCpu<T>,
        TensorError,
    >)
        requires
            self.fits(),
            chunk < self.spec_num_chunks(),
        ensures
            match backed.shape().check_spec(self.spec_backed_shape()) {
                Err(e) => r == Err::<TensorCpu<T>, TensorError>(e),
                Ok(_) => r matches Ok(x) && x.shape() == Shape::new_spec(
                    self.info.num_emb,
                    (layer_rows_of(self.info) * self.spec_chunk_layers(chunk as nat)) as usize,
                    1,
                ) && x.data() == window(
                    backed.data(),
                    backed.shape(),
                    Shape::new_spec(
                        0,
                        (layer_rows_of(self.info) * self.layers_before(chunk as nat)) as usize,
                        0,
                    ),
                    x.shape(),
                ),
            },
    {
        let shape = self.backed_shape();
        backed.get_shape().check(shape)?;
        let rows = self.att_rows() + 1;
        let layers = self.chunk_layers(chunk);
        proof {
            self.lemma_layers_before(chunk as nat);
            self.lemma_chunk_starts_inside(chunk as nat);
            self.lemma_layers_before((chunk + 1) as nat);
            assert(self.layers_before((chunk + 1) as nat) == self.layers_before(chunk as nat)
                + layers);
            assert(self.layers_before((chunk + 1) as nat) <= self.info.num_layer);
            let n = self.info.num_layer as int;
            assert(rows * (chunk * self.chunk_size) + rows * layers <= rows * n) by (nonlinear_arith)
                requires
                    chunk * self.chunk_size + layers <= n,
                    rows >= 0,
            ;
            assert(rows * (chunk * self.chunk_size) >= 0) by (nonlinear_arith)
                requires
                    rows >= 0,
            ;
        }
        let start = rows * (chunk * self.chunk_size);
        let x = backed.slice(Axis::Full, Axis::Range(start, start + rows * layers), Axis::Full);
        match x {
            Ok(x) => Ok(x),
            Err(e) => {
                proof {
                    assert(false);
                }
                Err(e)
            },
        }
    }

    /// Where slot `batch` of chunk `chunk` lies in the chunk's buffer of
    /// 4-byte elements: its first byte, and its length in bytes.
    pub fn slot_range(&self, chunk: usize, batch: usize) -> (r: Result<(usize, usize), TensorError>)
        requires
            self.fits(),
            chunk < self.spec_num_chunks(),
        ensures
            batch >= self.max_batch ==> r == Err::<(usize, usize), TensorError>(
                TensorError::BatchOutOfRange { batch, max: self.max_batch },
            ),
            batch < self.max_batch ==> r == Ok::<(usize, usize), TensorError>(
                (
                    (index_of(self.spec_chunk_shape(chunk as nat), 0, 0, batch as int) * 4) as usize,
                    (self.spec_chunk_shape(chunk as nat).c * self.spec_chunk_shape(
                        chunk as nat,
                    ).t * 4) as usize,
                ),
            ),
    {
        if batch >= self.max_batch {
            return Err(TensorError::BatchOutOfRange { batch, max: self.max_batch });
        }
        let shape = self.chunk_shape(chunk);
        proof {
            self.lemma_chunk_layers_bound(chunk as nat);
            let rows = layer_rows_of(self.info);
            let layers = self.spec_chunk_layers(chunk as nat);
            let e = self.info.num_emb as int;
            assert(rows * layers <= rows * self.chunk_size) by (nonlinear_arith)
                requires
                    layers <= self.chunk_size,
            ;
            assert(shape.t == rows * layers);
            assert(e * shape.t * (batch + 1) * 4 <= e * (rows * self.chunk_size) * self.max_batch
                * 4) by (nonlinear_arith)
                requires
                    shape.t <= rows * self.chunk_size,
                    batch + 1 <= self.max_batch,
                    e >= 0,
                    shape.t >= 0,
            ;
            assert(e * shape.t * batch * 4 + e * shape.t * 4 == e * shape.t * (batch + 1) * 4)
                by (nonlinear_arith);
            assert(e * shape.t * batch * 4 >= 0 && e * shape.t * 4 >= 0) by (nonlinear_arith)
                requires
                    e >= 0,
                    shape.t >= 0,
                    batch >= 0,
            ;
            assert(e * shape.t <= e * shape.t * 4) by (nonlinear_arith)
                requires
                    e * shape.t >= 0,
            ;
            assert(e * shape.t * batch <= e * shape.t * batch * 4) by (nonlinear_arith)
                requires
                    e * shape.t * batch >= 0,
            ;
            assert(index_of(shape, 0, 0, batch as int) * 4 == e * shape.t * batch * 4)
                by (nonlinear_arith)
                requires
                    shape.c == e,
            ;
        }
        let size = shape.c * shape.t;
        Ok((size * batch * 4, size * 4))
    }

    pub fn att_rows(&self) -> (r: usize)
        requires
            self.fits(),
        ensures
            r == att_rows_of(self.info),
            layer_rows_of(self.info) <= usize::MAX,
    {
        proof {
            assert(layer_rows_of(self.info) <= layer_rows_of(self.info) * self.chunk_size)
                by (nonlinear_arith)
                requires
                    self.chunk_size >= 1,
            ;
        }
        match self.info.version {
            ModelVersion::V4 => 4,
            _ => self.info.num_head + 1,
        }
    }

    pub fn chunk_shape(&self, chunk: usize) -> (r: Shape)
        requires
            self.fits(),
            chunk < self.spec_num_chunks(),
        ensures
            r == self.spec_chunk_shape(chunk as nat),
    {
        let rows = self.att_rows() + 1;
        let layers = self.chunk_layers(chunk);
        proof {
            self.lemma_chunk_layers_bound(chunk as nat);
            assert(rows * layers <= rows * self.chunk_size) by (nonlinear_arith)
                requires
                    layers <= self.chunk_size,
                    rows >= 0,
            ;
        }
        Shape::new(self.info.num_emb, rows * layers, self.max_batch)
    }
}

/// A batched recurrent state on the device: one tensor per chunk of layers.
pub struct StateGpu<B> {
    pub layout: StateLayout,
    pub chunks: Vec<TensorGpu<B>>,
}

impl<B> StateGpu<B> {
    /// The chunks are there, each with the shape the layout gives it.
    pub open spec fn wf(&self) -> bool {
        &&& self.layout.fits()
        &&& self.chunks@.len() == self.layout.spec_num_chunks()
        &&& forall|k: int|
            0 <= k < self.chunks@.len() ==> (#[trigger] self.chunks@[k]).shape
                == self.layout.spec_chunk_shape(k as nat) && crate::ops::storage(
                &self.chunks@[k],
                crate::shape::Scalar::F32,
            )
    }

    /// Checks that `batch` is one of this state's slots.
    pub fn check_batch(&self, batch: usize) -> (r: Result<(), TensorError>)
        ensures
            r == if batch < self.layout.max_batch {
                Ok::<(), TensorError>(())
            } else {
                Err(TensorError::BatchOutOfRange { batch, max: self.layout.max_batch })
            },
    {
        if batch < self.layout.max_batch {
            Ok(())
        } else {
            Err(TensorError::BatchOutOfRange { batch, max: self.layout.max_batch })
        }
    }

    /// The attention state of `layer`, all batches: `[num_emb, att_rows, max_batch]`.
    pub fn att(&self, layer: usize) -> (r: Result<TensorView<'_, B>, TensorError>)
        requires
            self.wf(),
        ensures
            layer >= self.layout.info.num_layer ==> r == Err::<TensorView<'_, B>, TensorError>(
                TensorError::LayerOutOfRange { layer, max: self.layout.info.num_layer },
            ),
            layer < self.layout.info.num_layer ==> (r matches Ok(view) && {
                let chunk = layer / self.layout.chunk_size;
                let index = layer % self.layout.chunk_size;
                &&& view.tensor() == &self.chunks@[chunk as int]
                &&& view.offset() == Shape::new_spec(
                    0,
                    (index * layer_rows_of(self.layout.info)) as usize,
                    0,
                )
                &&& view.shape() == Shape::new_spec(
                    self.layout.info.num_emb,
                    att_rows_of(self.layout.info) as usize,
                    self.layout.max_batch,
                )
            }),
    {
        let (chunk, index) = self.layout.locate(layer)?;
        let rows = self.layout.att_rows();
        proof {
            self.lemma_row_bounds(chunk as nat, index as nat);
        }
        let start = index * (rows + 1);
        self.chunks[chunk].as_view(Axis::Full, Axis::Range(start, start + rows), Axis::Full)
    }

    /// The feed-forward state of `layer`, all batches: `[num_emb, 1, max_batch]`.
    pub fn ffn(&self, layer: usize) -> (r: Result<TensorView<'_, B>, TensorError>)
        requires
            self.wf(),
        ensures
            layer >= self.layout.info.num_layer ==> r == Err::<TensorView<'_, B>, TensorError>(
                TensorError::LayerOutOfRange { layer, max: self.layout.info.num_layer },
            ),
            layer < self.layout.info.num_layer ==> (r matches Ok(view) && {
                let chunk = layer / self.layout.chunk_size;
                let index = layer % self.layout.chunk_size;
                &&& view.tensor() == &self.chunks@[chunk as int]
                &&& view.offset() == Shape::new_spec(
                    0,
                    (index * layer_rows_of(self.layout.info) + att_rows_of(self.layout.info))
                        as usize,
                    0,
                )
                &&& view.shape() == Shape::new_spec(
                    self.layout.info.num_emb,
                    1,
                    self.layout.max_batch,
                )
            }),
    {
        let (chunk, index) = self.layout.locate(layer)?;
        let rows = self.layout.att_rows();
        proof {
            self.lemma_row_bounds(chunk as nat, index as nat);
        }
        let start = index * (rows + 1);
        self.chunks[chunk].as_view(Axis::Full, Axis::Index(start + rows), Axis::Full)
    }

    proof fn lemma_row_bounds(&self, chunk: nat, index: nat)
        requires
            self.wf(),
            chunk < self.layout.spec_num_chunks(),
            index < self.layout.spec_chunk_layers(chunk),
        ensures
            (index + 1) * layer_rows_of(self.layout.info) <= self.chunks@[chunk as int].shape.t,
            index * layer_rows_of(self.layout.info) + layer_rows_of(self.layout.info) == (index
                + 1) * layer_rows_of(self.layout.info),
    {
        let rows = layer_rows_of(self.layout.info);
        let layers = self.layout.spec_chunk_layers(chunk);
        self.layout.lemma_chunk_layers_bound(chunk);
        assert(rows * layers <= rows * self.layout.chunk_size) by (nonlinear_arith)
            requires
                layers <= self.layout.chunk_size,
        ;
        assert((index + 1) * rows <= rows * layers) by (nonlinear_arith)
            requires
                index + 1 <= layers,
        ;
        assert(index * rows + rows == (index + 1) * rows) by (nonlinear_arith);
    }

    /// The kernels that copy slot `from_batch` of this state into slot
    /// `to_batch` of `other`, one blit per chunk.
    pub fn blit_batch<'a>(&'a self, other: &'a Self, from_batch: usize, to_batch: usize) -> (r:
        Result<Vec<TensorOp<'a, B>>, TensorError>)
        requires
            self.wf(),
            other.wf(),
        ensures
            from_batch >= self.layout.max_batch ==> r == Err::<Vec<TensorOp<'a, B>>, TensorError>(
                TensorError::BatchOutOfRange { batch: from_batch, max: self.layout.max_batch },
            ),
            from_batch < self.layout.max_batch && to_batch >= other.layout.max_batch ==> r == Err::<
                Vec<TensorOp<'a, B>>,
                TensorError,
            >(TensorError::BatchOutOfRange { batch: to_batch, max: other.layout.max_batch }),
            from_batch < self.layout.max_batch && to_batch < other.layout.max_batch
                && same_chunk_extents(self, other) ==> r is Ok,
            r matches Ok(ops) ==> {
                &&& from_batch < self.layout.max_batch
                &&& to_batch < other.layout.max_batch
                &&& ops.len() == self.chunks.len()
                &&& forall|k: int|
                    0 <= k < ops.len() ==> #[trigger] blits_slot(
                        ops@[k],
                        &self.chunks@[k],
                        &other.chunks@[k],
                        from_batch,
                        to_batch,
                    )
            },
    {
        self.check_batch(from_batch)?;
        other.check_batch(to_batch)?;
        let mut ops: Vec<TensorOp<'a, B>> = Vec::new();
        let mut k: usize = 0;
        while k < self.chunks.len()
            invariant
                k <= self.chunks.len(),
                ops.len() == k,
                from_batch < self.layout.max_batch,
                to_batch < other.layout.max_batch,
                self.wf(),
                other.wf(),
                same_chunk_extents(self, other) ==> k <= other.chunks.len(),
                forall|j: int|
                    0 <= j < k ==> #[trigger] blits_slot(
                        ops@[j],
                        &self.chunks@[j],
                        &other.chunks@[j],
                        from_batch,
                        to_batch,
                    ),
            decreases self.chunks.len() - k,
        {
            if k >= other.chunks.len() {
                return Err(
                    TensorError::ShapeMismatch {
                        expected: self.chunks[k].shape,
                        actual: Shape::new(0, 0, 0),
                    },
                );
            }
            let source = &self.chunks[k];
            let target = &other.chunks[k];
            let input = source.as_view(Axis::Full, Axis::Full, Axis::Index(from_batch))?;
            let output = target.as_view(Axis::Full, Axis::Full, Axis::Index(to_batch))?;
            let op = TensorOp::blit(input, output)?;
            ops.push(op);
            k += 1;
        }
        Ok(ops)
    }
}

/// The two states have as many chunks, each chunk as many channels and rows in
/// both.
pub open spec fn same_chunk_extents<B>(a: &StateGpu<B>, b: &StateGpu<B>) -> bool {
    &&& a.chunks@.len() == b.chunks@.len()
    &&& forall|k: int|
        0 <= k < a.chunks@.len() ==> (#[trigger] a.chunks@[k]).shape.c == b.chunks@[k].shape.c
            && a.chunks@[k].shape.t == b.chunks@[k].shape.t
}

/// `op` copies slot `from_batch` of `source` into slot `to_batch` of `target`.
pub open spec fn blits_slot<'a, B>(
    op: TensorOp<'a, B>,
    source: &'a TensorGpu<B>,
    target: &'a TensorGpu<B>,
    from_batch: usize,
    to_batch: usize,
) -> bool {
    exists|input: TensorView<'a, B>, output: TensorView<'a, B>|
        {
            &&& #[trigger] input.tensor() == source
            &&& #[trigger] output.tensor() == target
            &&& input.offset() == Shape::new_spec(0, 0, from_batch)
            &&& output.offset() == Shape::new_spec(0, 0, to_batch)
            &&& input.shape() == Shape::new_spec(source.shape.c, source.shape.t, 1)
            &&& output.shape() == input.shape()
            &&& crate::ops::is_op(
                op,
                "blit"@,
                seq![
                    crate::ops::bind(0, crate::tensor::view_meta(&input)),
                    crate::ops::bind(1, crate::tensor::view_meta(&output)),
                    crate::ops::bind(2, crate::ops::view_data(&input)),
                    crate::ops::bind(3, crate::ops::view_data(&output)),
                ],
                crate::ops::elementwise_grid(output.shape()),
            )
        }
}

} // verus!
