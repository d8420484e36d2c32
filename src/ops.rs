use vstd::prelude::*;
use crate::shape::{Kind, Scalar, Shape, TensorError};
use crate::tensor::{view_meta, Resource, TensorGpu, TensorView};

verus! {

/// One binding slot of a kernel and what it is given.
pub struct Binding<'a, B> {
    pub binding: u32,
    pub resource: Resource<'a, B>,
}

/// A kernel dispatch, ready to record: the pipeline to run, what its binding
/// slots are given, and the workgroup grid.
pub struct TensorOp<'a, B> {
    pub pipeline: &'static str,
    pub bindings: Vec<Binding<'a, B>>,
    pub dispatch: [u32; 3],
}

pub open spec fn bind<'a, B>(binding: u32, resource: Resource<'a, B>) -> Binding<'a, B> {
    Binding { binding, resource }
}

/// The first failure of two checks made in order.
pub open spec fn then_check(first: Result<(), TensorError>, second: Result<(), TensorError>) -> Result<
    (),
    TensorError,
> {
    if first is Err {
        first
    } else {
        second
    }
}

/// `op` runs `pipeline` with `bindings` on the grid `dispatch`.
pub open spec fn is_op<'a, B>(
    op: TensorOp<'a, B>,
    pipeline: Seq<char>,
    bindings: Seq<Binding<'a, B>>,
    dispatch: Seq<u32>,
) -> bool {
    &&& op.pipeline@ == pipeline
    &&& op.bindings@ == bindings
    &&& op.dispatch@ == dispatch
}

/// `x` is a storage tensor of elements of `scalar`.
pub open spec fn storage<B>(x: &TensorGpu<B>, scalar: Scalar) -> bool {
    x.scalar == scalar && x.kind == Kind::ReadWrite
}

/// `x` is a uniform tensor of elements of `scalar`.
pub open spec fn uniform<B>(x: &TensorGpu<B>, scalar: Scalar) -> bool {
    x.scalar == scalar && x.kind == Kind::Uniform
}

/// `x` views a storage tensor of 32-bit floats.
pub open spec fn float_view<'a, B>(x: &TensorView<'a, B>) -> bool {
    storage(x.tensor(), Scalar::F32)
}

/// Binding of a whole tensor's metadata.
pub open spec fn meta<'a, B>(x: &'a TensorGpu<B>) -> Resource<'a, B> {
    Resource::Shape(x.shape)
}

/// Binding of a whole tensor's data.
pub open spec fn data<'a, B>(x: &'a TensorGpu<B>) -> Resource<'a, B> {
    Resource::Buffer(&x.buffer)
}

/// Binding of the data under a view.
pub open spec fn view_data<'a, B>(x: &TensorView<'a, B>) -> Resource<'a, B> {
    Resource::Buffer(&x.tensor().buffer)
}

/// Number of workgroups of `BLOCK_SIZE` threads that cover `x` items.
pub open spec fn blocks(x: u32) -> u32 {
    ((x + BLOCK_SIZE - 1) / BLOCK_SIZE as int) as u32
}

/// Threads in one workgroup of the element-wise kernels.
pub const BLOCK_SIZE: u32 = 128;

/// The grid of the element-wise kernels over a tensor of `shape`, each thread
/// handling four channels.
pub open spec fn elementwise_grid(shape: Shape) -> Seq<u32> {
    seq![blocks((shape.c as u32) / 4), shape.t as u32, shape.b as u32]
}

fn block_count(x: u32) -> (r: u32)
    requires
        x <= u32::MAX / 4,
    ensures
        r == blocks(x),
{
    (x + BLOCK_SIZE - 1) / BLOCK_SIZE
}

impl<'a, B> TensorOp<'a, B> {
    /// Softmax over the channels of each row of `x`, in place.
    pub fn softmax(x: &'a TensorGpu<B>) -> (r: Result<Self, TensorError>)
        requires
            storage(x, Scalar::F32),
        ensures
            r matches Ok(op) && is_op(
                op,
                "softmax"@,
                seq![bind(0, meta(x)), bind(1, data(x))],
                seq![1, x.shape.t as u32, x.shape.b as u32],
            ),
    {
        let shape = x.shape;
        let bindings = vec![
            Binding { binding: 0, resource: x.meta_binding() },
            Binding { binding: 1, resource: x.binding() },
        ];
        Ok(TensorOp { pipeline: "softmax", bindings, dispatch: [1, shape.t as u32, shape.b as u32] })
    }

    /// Layer norm of each row of `x`, in place, with weight `w` and bias `b`.
    pub fn layer_norm(w: &'a TensorGpu<B>, b: &'a TensorGpu<B>, x: &'a TensorGpu<B>) -> (r: Result<
        Self,
        TensorError,
    >)
        requires
            storage(w, Scalar::F16),
            storage(b, Scalar::F16),
            storage(x, Scalar::F32),
        ensures
            ({
                let row = Shape::new_spec(x.shape.c, 1, 1);
                match then_check(w.shape.check_spec(row), b.shape.check_spec(row)) {
                    Err(e) => r == Err::<Self, TensorError>(e),
                    Ok(_) => r matches Ok(op) && is_op(
                        op,
                        "layer_norm"@,
                        seq![bind(0, meta(x)), bind(1, data(w)), bind(2, data(b)), bind(3, data(x))],
                        seq![1, x.shape.t as u32, x.shape.b as u32],
                    ),
                }
            }),
    {
        let shape = x.shape;
        w.check_shape(Shape::new(shape.c, 1, 1))?;
        b.check_shape(Shape::new(shape.c, 1, 1))?;
        let bindings = vec![
            Binding { binding: 0, resource: x.meta_binding() },
            Binding { binding: 1, resource: w.binding() },
            Binding { binding: 2, resource: b.binding() },
            Binding { binding: 3, resource: x.binding() },
        ];
        Ok(
            TensorOp {
                pipeline: "layer_norm",
                bindings,
                dispatch: [1, shape.t as u32, shape.b as u32],
            },
        )
    }

    /// Half-precision matrix product: `matrix` is `[C, R, 1]`, `input` is
    /// `[C, T, B]` and `output` is `[R, T, B]`.
    pub fn matmul(
        matrix: &'a TensorGpu<B>,
        input: TensorView<'a, B>,
        output: TensorView<'a, B>,
    ) -> (r: Result<Self, TensorError>)
        requires
            storage(matrix, Scalar::F16),
            float_view(&input),
            float_view(&output),
        ensures
            ({
                let shape = output.shape();
                match then_check(
                    matrix.shape.check_spec(Shape::new_spec(input.shape().c, shape.c, 1)),
                    input.shape().check_spec(Shape::new_spec(matrix.shape.c, shape.t, shape.b)),
                ) {
                    Err(e) => r == Err::<Self, TensorError>(e),
                    Ok(_) => r matches Ok(op) && is_op(
                        op,
                        "matmul"@,
                        seq![
                            bind(0, meta(matrix)),
                            bind(1, view_meta(&input)),
                            bind(2, view_meta(&output)),
                            bind(3, data(matrix)),
                            bind(4, view_data(&input)),
                            bind(5, view_data(&output)),
                        ],
                        seq![(matrix.shape.t as u32) / 4, shape.t as u32, shape.b as u32],
                    ),
                }
            }),
    {
        let shape = output.get_shape();
        let input_shape = input.get_shape();
        matrix.check_shape(Shape::new(input_shape.c, shape.c, 1))?;
        input.check_shape(Shape::new(matrix.shape.c, shape.t, shape.b))?;
        let bindings = vec![
            Binding { binding: 0, resource: matrix.meta_binding() },
            Binding { binding: 1, resource: input.meta_binding() },
            Binding { binding: 2, resource: output.meta_binding() },
            Binding { binding: 3, resource: matrix.binding() },
            Binding { binding: 4, resource: input.binding() },
            Binding { binding: 5, resource: output.binding() },
        ];
        Ok(
            TensorOp {
                pipeline: "matmul",
                bindings,
                dispatch: [(matrix.shape.t as u32) / 4, shape.t as u32, shape.b as u32],
            },
        )
    }

    /// 8-bit matrix product, dequantized on the fly: `matrix` is `[C, R, 1]`,
    /// `mx` and `rx` are `[C, 1, 1]`, `my` and `ry` are `[R, 1, 1]`, `input` is
    /// `[C, T, B]` and `output` is `[R, T, B]`.
    pub fn matmul_int8(
        matrix: &'a TensorGpu<B>,
        mx: &'a TensorGpu<B>,
        rx: &'a TensorGpu<B>,
        my: &'a TensorGpu<B>,
        ry: &'a TensorGpu<B>,
        input: TensorView<'a, B>,
        output: TensorView<'a, B>,
    ) -> (r: Result<Self, TensorError>)
        requires
            storage(matrix, Scalar::U8),
            storage(mx, Scalar::F16),
            storage(rx, Scalar::F16),
            storage(my, Scalar::F16),
            storage(ry, Scalar::F16),
            float_view(&input),
            float_view(&output),
        ensures
            ({
                let shape = output.shape();
                let col = Shape::new_spec(matrix.shape.c, 1, 1);
                let row = Shape::new_spec(matrix.shape.t, 1, 1);
                match then_check(
                    matrix.shape.check_spec(Shape::new_spec(input.shape().c, shape.c, 1)),
                    then_check(
                        input.shape().check_spec(Shape::new_spec(matrix.shape.c, shape.t, shape.b)),
                        then_check(
                            mx.shape.check_spec(col),
                            then_check(
                                rx.shape.check_spec(col),
                                then_check(my.shape.check_spec(row), ry.shape.check_spec(row)),
                            ),
                        ),
                    ),
                ) {
                    Err(e) => r == Err::<Self, TensorError>(e),
                    Ok(_) => r matches Ok(op) && is_op(
                        op,
                        "matmul_int8"@,
                        seq![
                            bind(0, meta(matrix)),
                            bind(1, view_meta(&input)),
                            bind(2, view_meta(&output)),
                            bind(3, data(matrix)),
                            bind(4, data(mx)),
                            bind(5, data(rx)),
                            bind(6, data(my)),
                            bind(7, data(ry)),
                            bind(8, view_data(&input)),
                            bind(9, view_data(&output)),
                        ],
                        seq![(matrix.shape.t as u32) / 4, shape.t as u32, shape.b as u32],
                    ),
                }
            }),
    {
        let shape = output.get_shape();
        let input_shape = input.get_shape();
        matrix.check_shape(Shape::new(input_shape.c, shape.c, 1))?;
        input.check_shape(Shape::new(matrix.shape.c, shape.t, shape.b))?;
        mx.check_shape(Shape::new(matrix.shape.c, 1, 1))?;
        rx.check_shape(Shape::new(matrix.shape.c, 1, 1))?;
        my.check_shape(Shape::new(matrix.shape.t, 1, 1))?;
        ry.check_shape(Shape::new(matrix.shape.t, 1, 1))?;
        let bindings = vec![
            Binding { binding: 0, resource: matrix.meta_binding() },
            Binding { binding: 1, resource: input.meta_binding() },
            Binding { binding: 2, resource: output.meta_binding() },
            Binding { binding: 3, resource: matrix.binding() },
            Binding { binding: 4, resource: mx.binding() },
            Binding { binding: 5, resource: rx.binding() },
            Binding { binding: 6, resource: my.binding() },
            Binding { binding: 7, resource: ry.binding() },
            Binding { binding: 8, resource: input.binding() },
            Binding { binding: 9, resource: output.binding() },
        ];
        Ok(
            TensorOp {
                pipeline: "matmul_int8",
                bindings,
                dispatch: [(matrix.shape.t as u32) / 4, shape.t as u32, shape.b as u32],
            },
        )
    }

    /// Adds `input` onto `output`, element by element.
    pub fn add(input: &'a TensorGpu<B>, output: &'a TensorGpu<B>) -> (r: Result<Self, TensorError>)
        requires
            storage(input, Scalar::F32),
            storage(output, Scalar::F32),
        ensures
            match input.shape.check_spec(output.shape) {
                Err(e) => r == Err::<Self, TensorError>(e),
                Ok(_) => r matches Ok(op) && is_op(
                    op,
                    "add"@,
                    seq![bind(0, meta(output)), bind(1, data(input)), bind(2, data(output))],
                    elementwise_grid(output.shape),
                ),
            },
    {
        let shape = output.shape;
        input.check_shape(shape)?;
        let bindings = vec![
            Binding { binding: 0, resource: output.meta_binding() },
            Binding { binding: 1, resource: input.binding() },
            Binding { binding: 2, resource: output.binding() },
        ];
        Ok(
            TensorOp {
                pipeline: "add",
                bindings,
                dispatch: [block_count((shape.c as u32) / 4), shape.t as u32, shape.b as u32],
            },
        )
    }

    /// Mixes each token with the one before it: `output = mix * x + (1 - mix) * sx`,
    /// where `sx` holds the last token of the previous step; `sx` is
    /// `[C, 1, B]` or `[C, 4, B]`.
    pub fn token_shift(
        time_mix: &'a TensorGpu<B>,
        x: &'a TensorGpu<B>,
        sx: TensorView<'a, B>,
        output: &'a TensorGpu<B>,
    ) -> (r: Result<Self, TensorError>)
        requires
            storage(time_mix, Scalar::F16),
            storage(x, Scalar::F32),
            float_view(&sx),
            storage(output, Scalar::F32),
        ensures
            ({
                let shape = output.shape;
                let sx_check = if sx.shape().check_spec(Shape::new_spec(shape.c, 1, shape.b)) is Ok {
                    Ok(())
                } else {
                    sx.shape().check_spec(Shape::new_spec(shape.c, 4, shape.b))
                };
                match then_check(
                    time_mix.shape.check_spec(Shape::new_spec(shape.c, 1, 1)),
                    then_check(x.shape.check_spec(shape), sx_check),
                ) {
                    Err(e) => r == Err::<Self, TensorError>(e),
                    Ok(_) => r matches Ok(op) && is_op(
                        op,
                        "token_shift"@,
                        seq![
                            bind(0, meta(output)),
                            bind(1, view_meta(&sx)),
                            bind(2, data(time_mix)),
                            bind(3, data(x)),
                            bind(4, view_data(&sx)),
                            bind(5, data(output)),
                        ],
                        elementwise_grid(shape),
                    ),
                }
            }),
    {
        let shape = output.shape;
        time_mix.check_shape(Shape::new(shape.c, 1, 1))?;
        x.check_shape(shape)?;
        if sx.check_shape(Shape::new(shape.c, 1, shape.b)).is_err() {
            sx.check_shape(Shape::new(shape.c, 4, shape.b))?;
        }
        let bindings = vec![
            Binding { binding: 0, resource: output.meta_binding() },
            Binding { binding: 1, resource: sx.meta_binding() },
            Binding { binding: 2, resource: time_mix.binding() },
            Binding { binding: 3, resource: x.binding() },
            Binding { binding: 4, resource: sx.binding() },
            Binding { binding: 5, resource: output.binding() },
        ];
        Ok(
            TensorOp {
                pipeline: "token_shift",
                bindings,
                dispatch: [block_count((shape.c as u32) / 4), shape.t as u32, shape.b as u32],
            },
        )
    }
    /// The V4 time-mix recurrence over the tokens of each batch; `state` is
    /// `[C, 4, B]` and carries the running sums from step to step.
    pub fn token_mix(
        mask: &'a TensorGpu<B>,
        time_decay: &'a TensorGpu<B>,
        time_first: &'a TensorGpu<B>,
        x: &'a TensorGpu<B>,
        k: &'a TensorGpu<B>,
        v: &'a TensorGpu<B>,
        r: &'a TensorGpu<B>,
        output: &'a TensorGpu<B>,
        state: TensorView<'a, B>,
    ) -> (res: Result<Self, TensorError>)
        requires
            uniform(mask, Scalar::U32),
            storage(time_decay, Scalar::F32),
            storage(time_first, Scalar::F32),
            storage(x, Scalar::F32),
            storage(k, Scalar::F32),
            storage(v, Scalar::F32),
            storage(r, Scalar::F32),
            storage(output, Scalar::F32),
            float_view(&state),
        ensures
            ({
                let shape = output.shape;
                let col = Shape::new_spec(shape.c, 1, 1);
                match then_check(
                    mask.shape.check_spec(Shape::new_spec(1, 1, 1)),
                    then_check(
                        x.shape.check_spec(shape),
                        then_check(
                            k.shape.check_spec(shape),
                            then_check(
                                v.shape.check_spec(shape),
                                then_check(
                                    r.shape.check_spec(shape),
                                    then_check(
                                        time_decay.shape.check_spec(col),
                                        then_check(
                                            time_first.shape.check_spec(col),
                                            state.shape().check_spec(
                                                Shape::new_spec(shape.c, 4, shape.b),
                                            ),
                                        ),
                                    ),
                                ),
                            ),
                        ),
                    ),
                ) {
                    Err(e) => res == Err::<Self, TensorError>(e),
                    Ok(_) => res matches Ok(op) && is_op(
                        op,
                        "token_mix"@,
                        seq![
                            bind(0, meta(output)),
                            bind(1, view_meta(&state)),
                            bind(2, data(mask)),
                            bind(3, data(time_decay)),
                            bind(4, data(time_first)),
                            bind(5, data(x)),
                            bind(6, data(k)),
                            bind(7, data(v)),
                            bind(8, data(r)),
                            bind(9, data(output)),
                            bind(10, view_data(&state)),
                        ],
                        seq![blocks((shape.c as u32) / 4), 1, shape.b as u32],
                    ),
                }
            }),
    {
        let shape = output.shape;
        mask.check_shape(Shape::new(1, 1, 1))?;
        x.check_shape(shape)?;
        k.check_shape(shape)?;
        v.check_shape(shape)?;
        r.check_shape(shape)?;
        time_decay.check_shape(Shape::new(shape.c, 1, 1))?;
        time_first.check_shape(Shape::new(shape.c, 1, 1))?;
        state.check_shape(Shape::new(shape.c, 4, shape.b))?;
        let bindings = vec![
            Binding { binding: 0, resource: output.meta_binding() },
            Binding { binding: 1, resource: state.meta_binding() },
            Binding { binding: 2, resource: mask.binding() },
            Binding { binding: 3, resource: time_decay.binding() },
            Binding { binding: 4, resource: time_first.binding() },
            Binding { binding: 5, resource: x.binding() },
            Binding { binding: 6, resource: k.binding() },
            Binding { binding: 7, resource: v.binding() },
            Binding { binding: 8, resource: r.binding() },
            Binding { binding: 9, resource: output.binding() },
            Binding { binding: 10, resource: state.binding() },
        ];
        Ok(
            TensorOp {
                pipeline: "token_mix",
                bindings,
                dispatch: [block_count((shape.c as u32) / 4), 1, shape.b as u32],
            },
        )
    }

    /// `x = max(0, x)²`, in place.
    pub fn squared_relu(x: &'a TensorGpu<B>) -> (r: Result<Self, TensorError>)
        requires
            storage(x, Scalar::F32),
        ensures
            r matches Ok(op) && is_op(
                op,
                "squared_relu"@,
                seq![bind(0, meta(x)), bind(1, data(x))],
                elementwise_grid(x.shape),
            ),
    {
        let shape = x.shape;
        let bindings = vec![
            Binding { binding: 0, resource: x.meta_binding() },
            Binding { binding: 1, resource: x.binding() },
        ];
        Ok(
            TensorOp {
                pipeline: "squared_relu",
                bindings,
                dispatch: [block_count((shape.c as u32) / 4), shape.t as u32, shape.b as u32],
            },
        )
    }

    /// The channel-mix (feed-forward) recurrence; `state` is `[C, 1, B]` and
    /// holds the last token of the previous step.
    pub fn channel_mix(
        mask: &'a TensorGpu<B>,
        x: &'a TensorGpu<B>,
        r: &'a TensorGpu<B>,
        v: &'a TensorGpu<B>,
        output: &'a TensorGpu<B>,
        state: TensorView<'a, B>,
    ) -> (res: Result<Self, TensorError>)
        requires
            uniform(mask, Scalar::U32),
            storage(x, Scalar::F32),
            storage(r, Scalar::F32),
            storage(v, Scalar::F32),
            storage(output, Scalar::F32),
            float_view(&state),
        ensures
            ({
                let shape = output.shape;
                match then_check(
                    mask.shape.check_spec(Shape::new_spec(1, 1, 1)),
                    then_check(
                        x.shape.check_spec(shape),
                        then_check(
                            v.shape.check_spec(shape),
                            then_check(
                                r.shape.check_spec(shape),
                                state.shape().check_spec(Shape::new_spec(shape.c, 1, shape.b)),
                            ),
                        ),
                    ),
                ) {
                    Err(e) => res == Err::<Self, TensorError>(e),
                    Ok(_) => res matches Ok(op) && is_op(
                        op,
                        "channel_mix"@,
                        seq![
                            bind(0, meta(output)),
                            bind(1, view_meta(&state)),
                            bind(2, data(mask)),
                            bind(3, data(x)),
                            bind(4, data(r)),
                            bind(5, data(v)),
                            bind(6, data(output)),
                            bind(7, view_data(&state)),
                        ],
                        elementwise_grid(shape),
                    ),
                }
            }),
    {
        let shape = output.shape;
        mask.check_shape(Shape::new(1, 1, 1))?;
        x.check_shape(shape)?;
        v.check_shape(shape)?;
        r.check_shape(shape)?;
        state.check_shape(Shape::new(shape.c, 1, shape.b))?;
        let bindings = vec![
            Binding { binding: 0, resource: output.meta_binding() },
            Binding { binding: 1, resource: state.meta_binding() },
            Binding { binding: 2, resource: mask.binding() },
            Binding { binding: 3, resource: x.binding() },
            Binding { binding: 4, resource: r.binding() },
            Binding { binding: 5, resource: v.binding() },
            Binding { binding: 6, resource: output.binding() },
            Binding { binding: 7, resource: state.binding() },
        ];
        Ok(
            TensorOp {
                pipeline: "channel_mix",
                bindings,
                dispatch: [block_count((shape.c as u32) / 4), shape.t as u32, shape.b as u32],
            },
        )
    }

    /// Copies the region of `input` into the region of `output`; the two
    /// views must have the same shape.
    pub fn blit(input: TensorView<'a, B>, output: TensorView<'a, B>) -> (r: Result<Self, TensorError>)
        requires
            float_view(&input),
            float_view(&output),
        ensures
            match input.shape().check_spec(output.shape()) {
                Err(e) => r == Err::<Self, TensorError>(e),
                Ok(_) => r matches Ok(op) && is_op(
                    op,
                    "blit"@,
                    seq![
                        bind(0, view_meta(&input)),
                        bind(1, view_meta(&output)),
                        bind(2, view_data(&input)),
                        bind(3, view_data(&output)),
                    ],
                    elementwise_grid(output.shape()),
                ),
            },
    {
        let shape = output.get_shape();
        input.check_shape(shape)?;
        let bindings = vec![
            Binding { binding: 0, resource: input.meta_binding() },
            Binding { binding: 1, resource: output.meta_binding() },
            Binding { binding: 2, resource: input.binding() },
            Binding { binding: 3, resource: output.binding() },
        ];
        Ok(
            TensorOp {
                pipeline: "blit",
                bindings,
                dispatch: [block_count((shape.c as u32) / 4), shape.t as u32, shape.b as u32],
            },
        )
    }

    /// The five kernels that quantize a half-precision matrix `input` of shape
    /// `[C, R, 1]` to 8 bits: first the per-row and per-column minima and ranges
    /// (`mx`, `rx` of `[C, 1, 1]`; `my`, `ry` of `[R, 1, 1]`), then the matrix.
    /// The statistics of the longer axis come first.
    pub fn quantize_mat_int8(
        input: &'a TensorGpu<B>,
        mx: &'a TensorGpu<B>,
        rx: &'a TensorGpu<B>,
        my: &'a TensorGpu<B>,
        ry: &'a TensorGpu<B>,
        output: &'a TensorGpu<B>,
    ) -> (r: Result<Vec<Self>, TensorError>)
        requires
            storage(input, Scalar::F16),
            storage(mx, Scalar::F32),
            storage(rx, Scalar::F32),
            storage(my, Scalar::F32),
            storage(ry, Scalar::F32),
            storage(output, Scalar::U8),
        ensures
            ({
                let shape = output.shape;
                let col = Shape::new_spec(shape.c, 1, 1);
                let row = Shape::new_spec(shape.t, 1, 1);
                let entries = quant_entries(input, mx, rx, my, ry, output);
                let op_my = |op: Self|
                    is_op(op, "quant_mat_int8_my"@, entries, seq![1, shape.t as u32, 1]);
                let op_ry = |op: Self|
                    is_op(op, "quant_mat_int8_ry"@, entries, seq![1, shape.t as u32, 1]);
                let op_mx = |op: Self|
                    is_op(op, "quant_mat_int8_mx"@, entries, seq![1, (shape.c as u32) / 4, 1]);
                let op_rx = |op: Self|
                    is_op(op, "quant_mat_int8_rx"@, entries, seq![1, (shape.c as u32) / 4, 1]);
                let op_q = |op: Self|
                    is_op(
                        op,
                        "quant_mat_int8"@,
                        entries,
                        seq![(shape.c as u32) / 4, shape.t as u32, 1],
                    );
                match then_check(
                    input.shape.check_spec(shape),
                    then_check(
                        mx.shape.check_spec(col),
                        then_check(
                            rx.shape.check_spec(col),
                            then_check(my.shape.check_spec(row), ry.shape.check_spec(row)),
                        ),
                    ),
                ) {
                    Err(e) => r == Err::<Vec<Self>, TensorError>(e),
                    Ok(_) => r matches Ok(ops) && ops.len() == 5 && op_rx(ops[2]) && op_ry(ops[3])
                        && op_q(ops[4]) && if shape.t > shape.c {
                        op_my(ops[0]) && op_mx(ops[1])
                    } else {
                        op_mx(ops[0]) && op_my(ops[1])
                    },
                }
            }),
    {
        let shape = output.shape;
        input.check_shape(shape)?;
        mx.check_shape(Shape::new(shape.c, 1, 1))?;
        rx.check_shape(Shape::new(shape.c, 1, 1))?;
        my.check_shape(Shape::new(shape.t, 1, 1))?;
        ry.check_shape(Shape::new(shape.t, 1, 1))?;
        let op_my = TensorOp {
            pipeline: "quant_mat_int8_my",
            bindings: quant_bindings(input, mx, rx, my, ry, output),
            dispatch: [1, shape.t as u32, 1],
        };
        let op_ry = TensorOp {
            pipeline: "quant_mat_int8_ry",
            bindings: quant_bindings(input, mx, rx, my, ry, output),
            dispatch: [1, shape.t as u32, 1],
        };
        let op_mx = TensorOp {
            pipeline: "quant_mat_int8_mx",
            bindings: quant_bindings(input, mx, rx, my, ry, output),
            dispatch: [1, (shape.c as u32) / 4, 1],
        };
        let op_rx = TensorOp {
            pipeline: "quant_mat_int8_rx",
            bindings: quant_bindings(input, mx, rx, my, ry, output),
            dispatch: [1, (shape.c as u32) / 4, 1],
        };
        let op_q = TensorOp {
            pipeline: "quant_mat_int8",
            bindings: quant_bindings(input, mx, rx, my, ry, output),
            dispatch: [(shape.c as u32) / 4, shape.t as u32, 1],
        };
        if shape.t > shape.c {
            Ok(vec![op_my, op_mx, op_rx, op_ry, op_q])
        } else {
            Ok(vec![op_mx, op_my, op_rx, op_ry, op_q])
        }
    }

    /// Converts `input` to half precision into `output`, element by element.
    pub fn quantize_vec_fp16(input: &'a TensorGpu<B>, output: &'a TensorGpu<B>) -> (r: Result<
        Self,
        TensorError,
    >)
        requires
            storage(input, Scalar::F32),
            storage(output, Scalar::F16),
        ensures
            match input.shape.check_spec(output.shape) {
                Err(e) => r == Err::<Self, TensorError>(e),
                Ok(_) => r matches Ok(op) && is_op(
                    op,
                    "quant_vec_fp16"@,
                    seq![bind(0, meta(output)), bind(1, data(input)), bind(2, data(output))],
                    elementwise_grid(output.shape),
                ),
            },
    {
        let shape = output.shape;
        input.check_shape(shape)?;
        let bindings = vec![
            Binding { binding: 0, resource: output.meta_binding() },
            Binding { binding: 1, resource: input.binding() },
            Binding { binding: 2, resource: output.binding() },
        ];
        Ok(
            TensorOp {
                pipeline: "quant_vec_fp16",
                bindings,
                dispatch: [block_count((shape.c as u32) / 4), shape.t as u32, shape.b as u32],
            },
        )
    }
}

/// What each of the quantization kernels is bound to.
pub open spec fn quant_entries<'a, B>(
    input: &'a TensorGpu<B>,
    mx: &'a TensorGpu<B>,
    rx: &'a TensorGpu<B>,
    my: &'a TensorGpu<B>,
    ry: &'a TensorGpu<B>,
    output: &'a TensorGpu<B>,
) -> Seq<Binding<'a, B>> {
    seq![
        bind(0, meta(output)),
        bind(1, data(input)),
        bind(2, data(mx)),
        bind(3, data(rx)),
        bind(4, data(my)),
        bind(5, data(ry)),
        bind(6, data(output)),
    ]
}

fn quant_bindings<'a, B>(
    input: &'a TensorGpu<B>,
    mx: &'a TensorGpu<B>,
    rx: &'a TensorGpu<B>,
    my: &'a TensorGpu<B>,
    ry: &'a TensorGpu<B>,
    output: &'a TensorGpu<B>,
) -> (r: Vec<Binding<'a, B>>)
    ensures
        r@ == quant_entries(input, mx, rx, my, ry, output),
{
    vec![
        Binding { binding: 0, resource: output.meta_binding() },
        Binding { binding: 1, resource: input.binding() },
        Binding { binding: 2, resource: mx.binding() },
        Binding { binding: 3, resource: rx.binding() },
        Binding { binding: 4, resource: my.binding() },
        Binding { binding: 5, resource: ry.binding() },
        Binding { binding: 6, resource: output.binding() },
    ]
}

} // verus!
