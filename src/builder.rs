use vstd::prelude::*;
use std::collections::HashMap;

verus! {

broadcast use vstd::std_specs::hash::group_hash_axioms;

/// Quantization of the matrices of one layer.
#[derive(Debug, Clone, Copy, PartialEq, Eq, Structural, Hash)]
pub enum Quant {
    /// No quantization.
    NoQuant,
    /// Use `Int8` quantization.
    Int8,
    /// Use `NF4` quantization.
    NF4,
}

impl Default for Quant {
    fn default() -> (r: Self)
        ensures
            r == Quant::NoQuant,
    {
        Quant::NoQuant
    }
}

/// Device that holds the model's embedding.
#[derive(Debug, Clone, Copy, PartialEq, Eq, Structural, Hash)]
pub enum EmbedDevice {
    Cpu,
    Gpu,
}

impl Default for EmbedDevice {
    fn default() -> (r: Self)
        ensures
            r == EmbedDevice::Cpu,
    {
        EmbedDevice::Cpu
    }
}

/// Layers between two halvings of the activations, unless set otherwise.
pub const RESCALE_LAYER: usize = 6;

/// Rows of the head projected by one dispatch, unless set otherwise.
pub const HEAD_CHUNK_SIZE: usize = 4096;

/// Tokens processed by one step, unless set otherwise.
pub const TOKEN_CHUNK_SIZE: usize = 32;

/// Construction of a value from its builder.
pub trait FromBuilder: Sized {
    type Builder;
    type Error;

    fn from_builder(builder: Self::Builder) -> Result<Self, Self::Error>;
}

/// Settings for loading a model from the weights `model`, with adapters of type `L`.
pub struct ModelBuilder<C, R, L> {
    pub context: C,
    pub model: R,
    pub rescale: usize,
    pub lora: Vec<L>,
    pub quant: HashMap<usize, Quant>,
    pub embed_device: EmbedDevice,
    pub turbo: bool,
    pub head_chunk_size: usize,
    pub token_chunk_size: usize,
}

impl<C: Clone, R, L> ModelBuilder<C, R, L> {
    /// Defaults: halve every `RESCALE_LAYER` layers, no adapters, no
    /// quantization, embedding on the host, `HEAD_CHUNK_SIZE` and `TOKEN_CHUNK_SIZE`.
    pub fn new(context: &C, model: R) -> (r: Self)
        ensures
            r.model == model,
            r.rescale == RESCALE_LAYER,
            r.lora@ == Seq::<L>::empty(),
            r.quant@ == Map::<usize, Quant>::empty(),
            r.embed_device == EmbedDevice::Cpu,
            r.turbo == false,
            r.head_chunk_size == HEAD_CHUNK_SIZE,
            r.token_chunk_size == TOKEN_CHUNK_SIZE,
    {
        ModelBuilder {
            context: context.clone(),
            model,
            rescale: RESCALE_LAYER,
            lora: Vec::new(),
            quant: HashMap::new(),
            embed_device: EmbedDevice::Cpu,
            turbo: false,
            head_chunk_size: HEAD_CHUNK_SIZE,
            token_chunk_size: TOKEN_CHUNK_SIZE,
        }
    }
}

impl<C, R, L> ModelBuilder<C, R, L> {
    /// Halve the layer and activation every `value` layers; at least every layer.
    pub fn rescale(self, value: usize) -> (r: Self)
        ensures
            r.rescale == if value < 1 { 1 } else { value },
            r.lora == self.lora,
            r.quant == self.quant,
            r.embed_device == self.embed_device,
            r.turbo == self.turbo,
            r.head_chunk_size == self.head_chunk_size,
            r.token_chunk_size == self.token_chunk_size,
    {
        let rescale = if value < 1 { 1 } else { value };
        ModelBuilder { rescale, ..self }
    }

    /// Adds an adapter, blended in after those added before.
    pub fn lora(self, value: L) -> (r: Self)
        ensures
            r.lora@ == self.lora@.push(value),
            r.rescale == self.rescale,
            r.quant == self.quant,
            r.embed_device == self.embed_device,
            r.turbo == self.turbo,
            r.head_chunk_size == self.head_chunk_size,
            r.token_chunk_size == self.token_chunk_size,
    {
        let mut lora = self.lora;
        lora.push(value);
        ModelBuilder { lora, ..self }
    }

    /// Adds an adapter, blended in after those added before.
    pub fn add_lora(self, value: L) -> (r: Self)
        ensures
            r.lora@ == self.lora@.push(value),
            r.rescale == self.rescale,
            r.quant == self.quant,
            r.embed_device == self.embed_device,
            r.turbo == self.turbo,
            r.head_chunk_size == self.head_chunk_size,
            r.token_chunk_size == self.token_chunk_size,
    {
        self.lora(value)
    }

    /// Quantization per layer; a layer left out is not quantized.
    pub fn quant(self, value: HashMap<usize, Quant>) -> (r: Self)
        ensures
            r.quant@ == value@,
            r.rescale == self.rescale,
            r.lora == self.lora,
            r.embed_device == self.embed_device,
            r.turbo == self.turbo,
            r.head_chunk_size == self.head_chunk_size,
            r.token_chunk_size == self.token_chunk_size,
    {
        ModelBuilder { quant: value, ..self }
    }

    /// Quantization per layer; a layer left out is not quantized.
    pub fn with_quant(self, value: HashMap<usize, Quant>) -> (r: Self)
        ensures
            r.quant@ == value@,
            r.rescale == self.rescale,
            r.lora == self.lora,
            r.embed_device == self.embed_device,
            r.turbo == self.turbo,
            r.head_chunk_size == self.head_chunk_size,
            r.token_chunk_size == self.token_chunk_size,
    {
        self.quant(value)
    }

    pub fn embed_device(self, value: EmbedDevice) -> (r: Self)
        ensures
            r.embed_device == value,
            r.rescale == self.rescale,
            r.lora == self.lora,
            r.quant == self.quant,
            r.turbo == self.turbo,
            r.head_chunk_size == self.head_chunk_size,
            r.token_chunk_size == self.token_chunk_size,
    {
        ModelBuilder { embed_device: value, ..self }
    }

    pub fn with_turbo(self, turbo: bool) -> (r: Self)
        ensures
            r.turbo == turbo,
            r.rescale == self.rescale,
            r.lora == self.lora,
            r.quant == self.quant,
            r.embed_device == self.embed_device,
            r.head_chunk_size == self.head_chunk_size,
            r.token_chunk_size == self.token_chunk_size,
    {
        ModelBuilder { turbo, ..self }
    }

    pub fn with_head_chunk_size(self, head_chunk_size: usize) -> (r: Self)
        ensures
            r.head_chunk_size == head_chunk_size,
            r.rescale == self.rescale,
            r.lora == self.lora,
            r.quant == self.quant,
            r.embed_device == self.embed_device,
            r.turbo == self.turbo,
            r.token_chunk_size == self.token_chunk_size,
    {
        ModelBuilder { head_chunk_size, ..self }
    }

    pub fn with_token_chunk_size(self, token_chunk_size: usize) -> (r: Self)
        ensures
            r.token_chunk_size == token_chunk_size,
            r.rescale == self.rescale,
            r.lora == self.lora,
            r.quant == self.quant,
            r.embed_device == self.embed_device,
            r.turbo == self.turbo,
            r.head_chunk_size == self.head_chunk_size,
    {
        ModelBuilder { token_chunk_size, ..self }
    }

    /// The quantization of `layer`.
    pub fn quant_of(&self, layer: usize) -> (r: Quant)
        ensures
            r == if self.quant@.contains_key(layer) {
                self.quant@[layer]
            } else {
                Quant::NoQuant
            },
    {
        match self.quant.get(&layer) {
            Some(q) => *q,
            None => Quant::NoQuant,
        }
    }

    /// Whether the output projection of `layer` absorbs a halving of the
    /// activations: the last layer of every group of `rescale` layers.
    pub fn is_rescaled_layer(&self, layer: usize) -> (r: bool)
        requires
            self.rescale >= 1,
        ensures
            r == (layer % self.rescale == (self.rescale - 1) as usize),
    {
        layer % self.rescale == self.rescale - 1
    }

    /// Builds the model.
    pub fn build<M: FromBuilder<Builder = Self>>(self) -> Result<M, M::Error> {
        M::from_builder(self)
    }
}

} // verus!
