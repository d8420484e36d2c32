use vstd::prelude::*;
use crate::cpu::{window, TensorCpu};
use crate::shape::{Axis, Shape};

verus! {

/// Architecture generation of an RWKV model.
#[derive(Debug, Clone, Copy, PartialEq, Eq, Structural, Hash)]
pub enum ModelVersion {
    V4,
    V5,
    V6,
}

/// Errors raised by the model-level entry points.
#[derive(Debug, Clone, Copy, PartialEq, Eq, Structural, Hash)]
pub enum ModelError {
    /// The weights are of none of the known versions.
    InvalidVersion,
    /// A token chunk size that is not a power of two.
    InvalidChunkSize(usize),
    /// The input has this many batches where the state has that many.
    BatchSize(usize, usize),
    /// A batch index at or past the number of batches.
    BatchOutOfRange { batch: usize, max: usize },
    /// No batch holds any token.
    EmptyInput,
}

/// Dimensions of a model, read from its weights.
#[derive(Debug, Clone, Copy, PartialEq, Eq, Structural, Hash)]
pub struct ModelInfo {
    pub version: ModelVersion,
    pub num_layer: usize,
    pub num_emb: usize,
    pub num_hidden: usize,
    pub num_vocab: usize,
    pub num_head: usize,
    pub time_mix_adapter_size: usize,
    pub time_decay_adapter_size: usize,
}

/// Bytes of one half-precision weight.
pub const HALF_SIZE: usize = 2;

/// Smallest device buffer size asked for.
pub const BUFFER_SIZE: usize = 256 << 20;

/// Smallest storage-binding size asked for.
pub const STORAGE_BUFFER_BINDING_SIZE: usize = 128 << 20;

/// The larger of `a` and `b`.
pub open spec fn max_of(a: nat, b: nat) -> nat {
    if a < b { b } else { a }
}

impl ModelInfo {
    /// Bytes of the largest weight matrix but the head: `num_emb × num_hidden` halves.
    pub open spec fn non_head_bytes(&self) -> nat {
        (self.num_emb as nat) * (self.num_hidden as nat) * (HALF_SIZE as nat)
    }

    /// Bytes of the head and of the embedding: `num_emb × num_vocab` halves.
    pub open spec fn head_bytes(&self) -> nat {
        (self.num_emb as nat) * (self.num_vocab as nat) * (HALF_SIZE as nat)
    }

    /// The byte sizes of the matrices fit a `usize`.
    pub open spec fn sizes_fit(&self) -> bool {
        self.non_head_bytes() <= usize::MAX && self.head_bytes() <= usize::MAX
    }

    /// The required storage buffer size, not including the head.
    pub fn max_non_head_buffer_size(&self) -> (r: usize)
        requires
            self.sizes_fit(),
        ensures
            r == self.non_head_bytes(),
    {
        proof {
            assert(self.num_emb * self.num_hidden <= self.non_head_bytes()) by (nonlinear_arith)
                requires
                    self.non_head_bytes() == self.num_emb * self.num_hidden * 2,
                    self.num_emb * self.num_hidden >= 0,
            ;
        }
        self.num_emb * self.num_hidden * HALF_SIZE
    }

    /// The size of the head and of the embedding.
    pub fn head_buffer_size(&self) -> (r: usize)
        requires
            self.sizes_fit(),
        ensures
            r == self.head_bytes(),
    {
        proof {
            assert(self.num_emb * self.num_vocab <= self.head_bytes()) by (nonlinear_arith)
                requires
                    self.head_bytes() == self.num_emb * self.num_vocab * 2,
                    self.num_emb * self.num_vocab >= 0,
            ;
        }
        self.num_emb * self.num_vocab * HALF_SIZE
    }
}

/// Device limits that a model needs: the largest buffer, and the largest
/// storage binding.
#[derive(Debug, Clone, Copy, PartialEq, Eq, Structural, Hash)]
pub struct Limits {
    pub max_buffer_size: u64,
    pub max_storage_buffer_binding_size: u32,
}

/// The largest buffer a model of `info` needs: its largest matrix, and no less
/// than `BUFFER_SIZE`.
pub open spec fn auto_buffer_size(info: ModelInfo) -> nat {
    max_of(max_of(BUFFER_SIZE as nat, info.non_head_bytes()), info.head_bytes())
}

/// The largest storage binding a model of `info` needs: its largest matrix, and
/// no less than `STORAGE_BUFFER_BINDING_SIZE`.
pub open spec fn auto_binding_size(info: ModelInfo) -> nat {
    max_of(max_of(STORAGE_BUFFER_BINDING_SIZE as nat, info.non_head_bytes()), info.head_bytes())
}

/// Derivation of device limits from the dimensions of a model.
pub trait ContextAutoLimits: Sized {
    /// The buffer and storage-binding limits held.
    spec fn buffer_limits(&self) -> (u64, u32);

    /// Sets the limits to what a model of `info` needs; the binding limit is
    /// kept to its low 32 bits, the width of the device's field.
    fn auto_limits(self, info: &ModelInfo) -> (r: Self)
        requires
            info.sizes_fit(),
        ensures
            r.buffer_limits() == (
                auto_buffer_size(*info) as u64,
                auto_binding_size(*info) as u32,
            ),
    ;
}

impl ContextAutoLimits for Limits {
    open spec fn buffer_limits(&self) -> (u64, u32) {
        (self.max_buffer_size, self.max_storage_buffer_binding_size)
    }

    fn auto_limits(self, info: &ModelInfo) -> (r: Self) {
        let non_head = info.max_non_head_buffer_size();
        let head = info.head_buffer_size();
        let mut buffer = BUFFER_SIZE;
        if buffer < non_head {
            buffer = non_head;
        }
        if buffer < head {
            buffer = head;
        }
        let mut binding = STORAGE_BUFFER_BINDING_SIZE;
        if binding < non_head {
            binding = non_head;
        }
        if binding < head {
            binding = head;
        }
        Limits { max_buffer_size: buffer as u64, max_storage_buffer_binding_size: binding as u32 }
    }
}

/// The token chunk size must be a power of two.
pub open spec fn is_power_of_two(n: nat) -> bool
    decreases n,
{
    if n == 1 {
        true
    } else if n < 2 || n % 2 != 0 {
        false
    } else {
        is_power_of_two(n / 2)
    }
}

/// Checks that `size` is a power of two, as a token chunk size must be.
pub fn check_token_chunk_size(size: usize) -> (r: Result<(), ModelError>)
    ensures
        r == if is_power_of_two(size as nat) {
            Ok::<(), ModelError>(())
        } else {
            Err(ModelError::InvalidChunkSize(size))
        },
{
    let mut n = size;
    while n > 1 && n % 2 == 0
        invariant
            n >= 1 || n == size,
            is_power_of_two(n as nat) == is_power_of_two(size as nat),
        decreases n,
    {
        n = n / 2;
    }
    if n == 1 {
        Ok(())
    } else {
        Err(ModelError::InvalidChunkSize(size))
    }
}

/// The logits of each batch, picked out of the `output` of a step: batch `i`
/// gets the elements of token row `redirect[i]` of `output`, if it has one.
pub fn collect_outputs<T: Copy>(output: &TensorCpu<T>, redirect: &Vec<Option<usize>>) -> (r: Vec<
    Option<Vec<T>>,
>)
    requires
        forall|i: int|
            0 <= i < redirect.len() ==> (#[trigger] redirect@[i] matches Some(row) ==> row
                < output.shape().t),
    ensures
        r.len() == redirect.len(),
        forall|i: int|
            0 <= i < redirect.len() ==> match #[trigger] redirect@[i] {
                None => r@[i] is None,
                Some(row) => r@[i] matches Some(v) && v@ == window(
                    output.data(),
                    output.shape(),
                    Shape::new_spec(0, row, 0),
                    Shape::new_spec(output.shape().c, 1, output.shape().b),
                ),
            },
{
    let mut r: Vec<Option<Vec<T>>> = Vec::new();
    let mut i: usize = 0;
    while i < redirect.len()
        invariant
            i <= redirect.len(),
            r.len() == i,
            forall|i: int|
                0 <= i < redirect.len() ==> (#[trigger] redirect@[i] matches Some(row) ==> row
                    < output.shape().t),
            forall|k: int|
                0 <= k < i ==> match #[trigger] redirect@[k] {
                    None => r@[k] is None,
                    Some(row) => r@[k] matches Some(v) && v@ == window(
                        output.data(),
                        output.shape(),
                        Shape::new_spec(0, row, 0),
                        Shape::new_spec(output.shape().c, 1, output.shape().b),
                    ),
                },
        decreases redirect.len() - i,
    {
        match redirect[i] {
            None => r.push(None),
            Some(row) => {
                let x = output.slice(Axis::Full, Axis::Index(row), Axis::Full);
                match x {
                    Ok(x) => r.push(Some(x.to_vec())),
                    Err(_) => {
                        proof {
                            assert(false);
                        }
                        r.push(None);
                    },
                }
            },
        }
        i += 1;
    }
    r
}

/// The row ranges of the head projection, one per dispatch: consecutive from
/// row 0 to `num_vocab`, each of `head_chunk_size` rows but the last, which
/// holds what is left.
pub fn head_chunks(num_vocab: usize, head_chunk_size: usize) -> (r: Vec<(usize, usize)>)
    requires
        head_chunk_size > 0,
    ensures
        r.len() == 0 <==> num_vocab == 0,
        r.len() > 0 ==> r@[0].0 == 0 && r@.last().1 == num_vocab,
        forall|i: int| 0 <= i < r.len() - 1 ==> #[trigger] r@[i].1 == r@[i + 1].0,
        forall|i: int|
            0 <= i < r.len() ==> #[trigger] r@[i].0 < r@[i].1 <= r@[i].0 + head_chunk_size,
        forall|i: int| 0 <= i < r.len() - 1 ==> #[trigger] r@[i].1 == r@[i].0 + head_chunk_size,
{
    let mut r: Vec<(usize, usize)> = Vec::new();
    let mut start: usize = 0;
    while start < num_vocab
        invariant
            head_chunk_size > 0,
            start <= num_vocab,
            r.len() == 0 <==> start == 0,
            r.len() > 0 ==> r@[0].0 == 0 && r@.last().1 == start,
            forall|i: int| 0 <= i < r.len() - 1 ==> #[trigger] r@[i].1 == r@[i + 1].0,
            forall|i: int|
                0 <= i < r.len() ==> #[trigger] r@[i].0 < r@[i].1 <= r@[i].0 + head_chunk_size,
            forall|i: int|
                0 <= i < r.len() - 1 ==> #[trigger] r@[i].1 == r@[i].0 + head_chunk_size,
            r.len() > 0 && start < num_vocab ==> r@.last().1 == r@.last().0 + head_chunk_size,
        decreases num_vocab - start,
    {
        let end = if num_vocab - start > head_chunk_size {
            start + head_chunk_size
        } else {
            num_vocab
        };
        r.push((start, end));
        start = end;
    }
    r
}

/// Number of tokens held by all batches together.
pub open spec fn count_tokens(tokens: Seq<Seq<u16>>) -> nat
    decreases tokens.len(),
{
    if tokens.len() == 0 {
        0
    } else {
        count_tokens(tokens.drop_last()) + tokens.last().len()
    }
}

/// Number of tokens held by the batches before `index`.
pub open spec fn tokens_before(tokens: Seq<Seq<u16>>, index: int) -> nat {
    count_tokens(tokens.take(index))
}

/// Number of tokens that one step consumes.
pub open spec fn step_budget(tokens: Seq<Seq<u16>>, chunk: nat) -> nat {
    let total = count_tokens(tokens);
    if total < chunk { total } else { chunk }
}

/// Number of tokens taken from the front of batch `index` in one step: batches are
/// drained in ascending order until the step's budget is spent.
pub open spec fn taken_from(tokens: Seq<Seq<u16>>, chunk: nat, index: int) -> nat {
    let before = tokens_before(tokens, index);
    let budget = step_budget(tokens, chunk);
    if budget <= before {
        0
    } else if tokens[index].len() <= budget - before {
        tokens[index].len()
    } else {
        (budget - before) as nat
    }
}

/// Batch `index` is the one at which the step's budget runs out while it still
/// holds tokens.
pub open spec fn straddles(tokens: Seq<Seq<u16>>, chunk: nat, index: int) -> bool {
    &&& 0 <= index < tokens.len()
    &&& tokens_before(tokens, index) < step_budget(tokens, chunk)
    &&& step_budget(tokens, chunk) < tokens_before(tokens, index + 1)
}

/// The token sequences held by a list of batches.
pub open spec fn batches(tokens: Seq<Vec<u16>>) -> Seq<Seq<u16>> {
    tokens.map_values(|b: Vec<u16>| b@)
}

proof fn lemma_count_take_step(tokens: Seq<Seq<u16>>, index: int)
    requires
        0 <= index < tokens.len(),
    ensures
        tokens_before(tokens, index + 1) == tokens_before(tokens, index) + tokens[index].len(),
{
    assert(tokens.take(index + 1).drop_last() =~= tokens.take(index));
}

proof fn lemma_count_monotone(tokens: Seq<Seq<u16>>, i: int, j: int)
    requires
        0 <= i <= j <= tokens.len(),
    ensures
        tokens_before(tokens, i) <= tokens_before(tokens, j),
    decreases j - i,
{
    if i < j {
        lemma_count_take_step(tokens, j - 1);
        lemma_count_monotone(tokens, i, j - 1);
    }
}

proof fn lemma_count_all(tokens: Seq<Seq<u16>>)
    ensures
        tokens_before(tokens, tokens.len() as int) == count_tokens(tokens),
{
    assert(tokens.take(tokens.len() as int) =~= tokens);
}

/// Tokens taken from the batches before `index` in one step.
pub open spec fn taken_before(tokens: Seq<Seq<u16>>, chunk: nat, index: int) -> nat
    decreases index,
{
    if index <= 0 {
        0
    } else {
        taken_before(tokens, chunk, index - 1) + taken_from(tokens, chunk, index - 1)
    }
}

proof fn lemma_taken_before(tokens: Seq<Seq<u16>>, chunk: nat, index: int)
    requires
        0 <= index <= tokens.len(),
    ensures
        taken_before(tokens, chunk, index) == if tokens_before(tokens, index) < step_budget(
            tokens,
            chunk,
        ) {
            tokens_before(tokens, index)
        } else {
            step_budget(tokens, chunk)
        },
    decreases index,
{
    if index > 0 {
        lemma_taken_before(tokens, chunk, index - 1);
        lemma_count_take_step(tokens, index - 1);
    } else {
        assert(tokens.take(0) =~= Seq::<Seq<u16>>::empty());
    }
}

/// One step takes exactly `min(total, chunk)` tokens over all batches.
pub proof fn lemma_step_takes_budget(tokens: Seq<Seq<u16>>, chunk: nat)
    ensures
        taken_before(tokens, chunk, tokens.len() as int) == step_budget(tokens, chunk),
{
    lemma_taken_before(tokens, chunk, tokens.len() as int);
    lemma_count_all(tokens);
}

/// What one step takes from a batch, followed by what it leaves there, is the
/// batch's tokens: across steps each batch is fed its tokens whole and in order.
pub proof fn lemma_step_keeps_order(tokens: Seq<Seq<u16>>, chunk: nat, index: int)
    requires
        0 <= index < tokens.len(),
    ensures
        taken_from(tokens, chunk, index) <= tokens[index].len(),
        tokens[index].take(taken_from(tokens, chunk, index) as int) + tokens[index].skip(
            taken_from(tokens, chunk, index) as int,
        ) == tokens[index],
{
    let n = taken_from(tokens, chunk, index) as int;
    assert(tokens[index].take(n) + tokens[index].skip(n) =~= tokens[index]);
}

/// Takes the tokens of one step out of `tokens`.
///
/// At most `token_chunk_size` tokens are taken, batch after batch in ascending
/// order, each from the front of its batch; the rest stays in `tokens` for the
/// next step. Returns the taken tokens per batch and the batch at which the
/// budget ran out while tokens remained in it, if there is one.
pub fn take_chunk(tokens: &mut Vec<Vec<u16>>, max_batch: usize, token_chunk_size: usize) -> (r:
    Result<(Vec<Vec<u16>>, Option<usize>), ModelError>)
    requires
        token_chunk_size > 0,
    ensures
        old(tokens).len() != max_batch ==> r == Err::<(Vec<Vec<u16>>, Option<usize>), ModelError>(
            ModelError::BatchSize(old(tokens).len(), max_batch),
        ),
        old(tokens).len() == max_batch && count_tokens(batches(old(tokens)@)) == 0 ==> r == Err::<
            (Vec<Vec<u16>>, Option<usize>),
            ModelError,
        >(ModelError::EmptyInput),
        old(tokens).len() == max_batch && count_tokens(batches(old(tokens)@)) > 0 ==> r is Ok,
        r is Err ==> final(tokens)@ == old(tokens)@,
        r matches Ok((inputs, last)) ==> {
            let old_batches = batches(old(tokens)@);
            let chunk = token_chunk_size as nat;
            &&& old(tokens).len() == max_batch
            &&& count_tokens(old_batches) > 0
            &&& inputs.len() == max_batch
            &&& final(tokens).len() == max_batch
            &&& forall|i: int|
                0 <= i < max_batch ==> #[trigger] inputs@[i]@ == old_batches[i].take(
                    taken_from(old_batches, chunk, i) as int,
                )
            &&& forall|i: int|
                0 <= i < max_batch ==> #[trigger] final(tokens)@[i]@ == old_batches[i].skip(
                    taken_from(old_batches, chunk, i) as int,
                )
            &&& match last {
                Some(k) => straddles(old_batches, chunk, k as int),
                None => forall|k: int| !straddles(old_batches, chunk, k),
            }
        },
{
    let n = tokens.len();
    if n != max_batch {
        return Err(ModelError::BatchSize(n, max_batch));
    }
    let ghost old_batches = batches(tokens@);
    let ghost chunk = token_chunk_size as nat;
    // the step's budget: all tokens, capped by the chunk size
    let mut budget: usize = 0;
    let mut i: usize = 0;
    while i < n
        invariant
            i <= n,
            n == tokens.len(),
            old_batches == batches(tokens@),
            old_batches.len() == n,
            chunk == token_chunk_size as nat,
            budget as nat == if tokens_before(old_batches, i as int) < chunk {
                tokens_before(old_batches, i as int)
            } else {
                chunk
            },
        decreases n - i,
    {
        proof {
            lemma_count_take_step(old_batches, i as int);
        }
        let len = tokens[i].len();
        budget = budget.saturating_add(len);
        if budget > token_chunk_size {
            budget = token_chunk_size;
        }
        i += 1;
    }
    proof {
        lemma_count_all(old_batches);
    }
    if budget == 0 {
        return Err(ModelError::EmptyInput);
    }
    let mut inputs: Vec<Vec<u16>> = Vec::new();
    let mut j: usize = 0;
    while j < n
        invariant
            j <= n,
            inputs.len() == j,
            forall|k: int| 0 <= k < j ==> (#[trigger] inputs@[k])@.len() == 0,
        decreases n - j,
    {
        inputs.push(Vec::new());
        j += 1;
    }
    let ghost start_tokens = tokens@;
    let mut remaining: usize = budget;
    let mut last: Option<usize> = None;
    let mut index: usize = 0;
    while index < n
        invariant_except_break
            index <= n,
            remaining > 0,
            remaining as int == budget - tokens_before(old_batches, index as int),
            index == 0 ==> last is None,
            index > 0 ==> (last is Some <==> straddles(old_batches, chunk, index - 1)),
            last matches Some(k) ==> k == index - 1,
            forall|k: int| 0 <= k < index - 1 ==> !straddles(old_batches, chunk, k),
            forall|k: int|
                0 <= k < index ==> #[trigger] inputs@[k]@ == old_batches[k].take(
                    taken_from(old_batches, chunk, k) as int,
                ),
            forall|k: int|
                0 <= k < index ==> #[trigger] tokens@[k]@ == old_batches[k].skip(
                    taken_from(old_batches, chunk, k) as int,
                ),
            forall|k: int| index <= k < n ==> #[trigger] tokens@[k] == start_tokens[k],
            forall|k: int| index <= k < n ==> (#[trigger] inputs@[k])@.len() == 0,
        invariant
            n == tokens.len(),
            n == inputs.len(),
            old_batches == batches(start_tokens),
            old_batches.len() == n,
            chunk == token_chunk_size as nat,
            budget == step_budget(old_batches, chunk),
            0 < budget <= tokens_before(old_batches, n as int),
        ensures
            index < n,
            remaining == 0,
            budget <= tokens_before(old_batches, index as int + 1),
            n == tokens.len(),
            n == inputs.len(),
            last is Some <==> straddles(old_batches, chunk, index as int),
            last matches Some(k) ==> k == index,
            forall|k: int| 0 <= k < index ==> !straddles(old_batches, chunk, k),
            forall|k: int|
                0 <= k <= index ==> #[trigger] inputs@[k]@ == old_batches[k].take(
                    taken_from(old_batches, chunk, k) as int,
                ),
            forall|k: int|
                0 <= k <= index ==> #[trigger] tokens@[k]@ == old_batches[k].skip(
                    taken_from(old_batches, chunk, k) as int,
                ),
            forall|k: int| index < k < n ==> #[trigger] tokens@[k] == start_tokens[k],
            forall|k: int| index < k < n ==> (#[trigger] inputs@[k])@.len() == 0,
        decreases n - index,
    {
        proof {
            lemma_count_take_step(old_batches, index as int);
            lemma_count_monotone(old_batches, index as int + 1, n as int);
        }
        let len = tokens[index].len();
        let mid = if len < remaining { len } else { remaining };
        remaining -= mid;
        let mut batch: Vec<u16> = Vec::new();
        std::mem::swap(&mut batch, &mut tokens[index]);
        let mut tail = batch.split_off(mid);
        last = if tail.len() > 0 { Some(index) } else { None };
        std::mem::swap(&mut tail, &mut tokens[index]);
        inputs[index] = batch;
        proof {
            assert forall|k: int| 0 <= k < index implies !straddles(old_batches, chunk, k) by {
                lemma_count_monotone(old_batches, k + 1, index as int);
            }
        }
        if remaining == 0 {
            break;
        }
        index += 1;
    }
    proof {
        assert forall|k: int| index < k < n implies !straddles(old_batches, chunk, k) by {
            lemma_count_monotone(old_batches, index + 1, k);
        }
        assert forall|k: int| index < k < n implies taken_from(old_batches, chunk, k) == 0 by {
            lemma_count_monotone(old_batches, index + 1, k);
        }
        assert forall|k: int| index < k < n implies #[trigger] inputs@[k]@ == old_batches[k].take(
            taken_from(old_batches, chunk, k) as int,
        ) by {
            lemma_count_monotone(old_batches, index + 1, k);
            assert(inputs@[k]@ =~= old_batches[k].take(0));
        }
        assert forall|k: int| index < k < n implies #[trigger] tokens@[k]@ == old_batches[k].skip(
            taken_from(old_batches, chunk, k) as int,
        ) by {
            lemma_count_monotone(old_batches, index + 1, k);
            assert(old_batches[k].skip(0) =~= old_batches[k]);
        }
    }
    Ok((inputs, last))
}

} // verus!
