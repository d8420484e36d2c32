use web_rwkv::command::{Command, CommandList, TensorCommand, TensorPass};
use web_rwkv::cpu::TensorCpu;
use web_rwkv::ops::TensorOp;
use web_rwkv::shape::{Axis, Kind, Scalar, Shape, TensorError};
use web_rwkv::tensor::{Resource, TensorGpu};

fn gpu(shape: Shape, scalar: Scalar, name: &'static str) -> TensorGpu<&'static str> {
    TensorGpu::new(shape, scalar, Kind::ReadWrite, name)
}

fn is_buffer(resource: &Resource<&'static str>, name: &str) -> bool {
    matches!(resource, Resource::Buffer(b) if **b == name)
}

#[test]
fn test_copy() {
    let x: Vec<f32> = vec![0.0, 1.5, 2.0, -1.0];
    let shape = Shape::new(x.len(), 1, 1);
    let x_device = gpu(shape, Scalar::F32, "x");
    let x_map = TensorGpu::new(shape, Scalar::F32, Kind::ReadBack, "map");

    let mut encoder = CommandList::new();
    encoder.copy_tensor(&x_device, &x_map).unwrap();
    assert_eq!(encoder.commands.len(), 1);
    match &encoder.commands[0] {
        Command::Copy { source, destination, size } => {
            assert_eq!(**source, "x");
            assert_eq!(**destination, "map");
            assert_eq!(*size, 16);
        }
        _ => panic!("expected a copy"),
    }

    let x_host = TensorCpu::from_data(shape, x.clone()).unwrap();
    let x_host = x_host.to_vec();
    assert_eq!(
        x.iter().map(|v| v.to_bits()).collect::<Vec<_>>(),
        x_host.iter().map(|v| v.to_bits()).collect::<Vec<_>>()
    );
}

#[test]
fn copy_of_other_shape_records_nothing() {
    let a = gpu(Shape::new(4, 1, 1), Scalar::F32, "a");
    let b = gpu(Shape::new(2, 2, 1), Scalar::F32, "b");
    let mut encoder = CommandList::new();
    let r = encoder.copy_tensor(&a, &b);
    assert_eq!(
        r,
        Err(TensorError::ShapeMismatch { expected: Shape::new(2, 2, 1), actual: Shape::new(4, 1, 1) })
    );
    assert!(encoder.commands.is_empty());
}

#[test]
fn test_softmax() {
    const C: usize = 1000;
    const T: usize = 3;
    const B: usize = 2;
    let x_dev = gpu(Shape::new(C, T, B), Scalar::F32, "x");
    let softmax = TensorOp::softmax(&x_dev).unwrap();
    assert_eq!(softmax.pipeline, "softmax");
    assert_eq!(softmax.dispatch, [1, 3, 2]);
    assert_eq!(softmax.bindings.len(), 2);
    assert!(matches!(softmax.bindings[0].resource, Resource::Shape(s) if s == Shape::new(C, T, B)));
    assert!(is_buffer(&softmax.bindings[1].resource, "x"));

    let mut pass = CommandList::new();
    pass.execute_tensor_op(softmax);
    assert_eq!(pass.commands.len(), 1);
}

#[test]
fn test_layer_norm() {
    const C: usize = 1000;
    const T: usize = 3;
    const B: usize = 2;
    let x_dev = gpu(Shape::new(C, T, B), Scalar::F32, "x");
    let w_dev = gpu(Shape::new(C, 1, 1), Scalar::F16, "w");
    let b_dev = gpu(Shape::new(C, 1, 1), Scalar::F16, "b");
    let op = TensorOp::layer_norm(&w_dev, &b_dev, &x_dev).unwrap();
    assert_eq!(op.pipeline, "layer_norm");
    assert_eq!(op.dispatch, [1, 3, 2]);
    let slots: Vec<u32> = op.bindings.iter().map(|b| b.binding).collect();
    assert_eq!(slots, vec![0, 1, 2, 3]);
    assert!(is_buffer(&op.bindings[1].resource, "w"));
    assert!(is_buffer(&op.bindings[2].resource, "b"));
    assert!(is_buffer(&op.bindings[3].resource, "x"));
}

#[test]
fn layer_norm_rejects_short_weight() {
    let x_dev = gpu(Shape::new(8, 3, 2), Scalar::F32, "x");
    let w_dev = gpu(Shape::new(4, 1, 1), Scalar::F16, "w");
    let b_dev = gpu(Shape::new(8, 1, 1), Scalar::F16, "b");
    let r = TensorOp::layer_norm(&w_dev, &b_dev, &x_dev);
    assert!(matches!(
        r,
        Err(TensorError::ShapeMismatch { expected, actual })
            if expected == Shape::new(8, 1, 1) && actual == Shape::new(4, 1, 1)
    ));
}

#[test]
fn test_matmul() {
    const C: usize = 1024;
    const R: usize = 768;
    const T: usize = 7;
    const B: usize = 3;
    let matrix_dev = gpu(Shape::new(C, R, 1), Scalar::F16, "matrix");
    let input_dev = gpu(Shape::new(C, T, B), Scalar::F32, "input");
    let output_dev = gpu(Shape::new(R * 2, T, B), Scalar::F32, "output");

    let output = output_dev.as_view(Axis::From(R), Axis::Full, Axis::Full).unwrap();
    assert_eq!(output.get_offset(), Shape::new(R, 0, 0));
    assert_eq!(output.get_shape(), Shape::new(R, T, B));

    let matmul = TensorOp::matmul(&matrix_dev, input_dev.view(), output).unwrap();
    assert_eq!(matmul.pipeline, "matmul");
    assert_eq!(matmul.dispatch, [192, 7, 3]);
    assert_eq!(matmul.bindings.len(), 6);
    assert!(matches!(
        matmul.bindings[2].resource,
        Resource::View { shape, stride, offset }
            if shape == Shape::new(R, T, B)
                && stride == Shape::new(2 * R, T, B)
                && offset == Shape::new(R, 0, 0)
    ));
    assert!(is_buffer(&matmul.bindings[5].resource, "output"));
}

#[test]
fn matmul_rejects_wrong_input() {
    let matrix_dev = gpu(Shape::new(16, 8, 1), Scalar::F16, "matrix");
    let input_dev = gpu(Shape::new(16, 2, 1), Scalar::F32, "input");
    let output_dev = gpu(Shape::new(8, 3, 1), Scalar::F32, "output");
    let r = TensorOp::matmul(&matrix_dev, input_dev.view(), output_dev.view());
    assert!(matches!(
        r,
        Err(TensorError::ShapeMismatch { expected, actual })
            if expected == Shape::new(16, 3, 1) && actual == Shape::new(16, 2, 1)
    ));
}

#[test]
fn matmul_int8_checks_scales() {
    let matrix = gpu(Shape::new(16, 8, 1), Scalar::U8, "matrix");
    let mx = gpu(Shape::new(16, 1, 1), Scalar::F16, "mx");
    let rx = gpu(Shape::new(16, 1, 1), Scalar::F16, "rx");
    let my = gpu(Shape::new(8, 1, 1), Scalar::F16, "my");
    let ry = gpu(Shape::new(16, 1, 1), Scalar::F16, "ry");
    let input = gpu(Shape::new(16, 2, 1), Scalar::F32, "input");
    let output = gpu(Shape::new(8, 2, 1), Scalar::F32, "output");
    let r = TensorOp::matmul_int8(&matrix, &mx, &rx, &my, &ry, input.view(), output.view());
    assert!(matches!(
        r,
        Err(TensorError::ShapeMismatch { expected, actual })
            if expected == Shape::new(8, 1, 1) && actual == Shape::new(16, 1, 1)
    ));
    let ry = gpu(Shape::new(8, 1, 1), Scalar::F16, "ry");
    let op = TensorOp::matmul_int8(&matrix, &mx, &rx, &my, &ry, input.view(), output.view()).unwrap();
    assert_eq!(op.pipeline, "matmul_int8");
    assert_eq!(op.dispatch, [2, 2, 1]);
    assert_eq!(op.bindings.len(), 10);
    assert!(is_buffer(&op.bindings[7].resource, "ry"));
}

#[test]
fn add_dispatches_blocks_of_channels() {
    let input = gpu(Shape::new(2048, 5, 2), Scalar::F32, "input");
    let output = gpu(Shape::new(2048, 5, 2), Scalar::F32, "output");
    let op = TensorOp::add(&input, &output).unwrap();
    assert_eq!(op.pipeline, "add");
    assert_eq!(op.dispatch, [4, 5, 2]);
    let small = gpu(Shape::new(4, 1, 1), Scalar::F32, "small");
    let op = TensorOp::add(&small, &small).unwrap();
    assert_eq!(op.dispatch, [1, 1, 1]);
    let other = gpu(Shape::new(4, 2, 1), Scalar::F32, "other");
    assert!(TensorOp::add(&other, &small).is_err());
}

#[test]
fn token_shift_takes_one_or_four_state_rows() {
    let mix = gpu(Shape::new(8, 1, 1), Scalar::F16, "mix");
    let x = gpu(Shape::new(8, 3, 2), Scalar::F32, "x");
    let out = gpu(Shape::new(8, 3, 2), Scalar::F32, "out");
    let sx1 = gpu(Shape::new(8, 1, 2), Scalar::F32, "sx1");
    let sx4 = gpu(Shape::new(8, 4, 2), Scalar::F32, "sx4");
    let sx2 = gpu(Shape::new(8, 2, 2), Scalar::F32, "sx2");
    let op = TensorOp::token_shift(&mix, &x, sx1.view(), &out).unwrap();
    assert_eq!(op.pipeline, "token_shift");
    assert_eq!(op.dispatch, [1, 3, 2]);
    assert!(TensorOp::token_shift(&mix, &x, sx4.view(), &out).is_ok());
    let r = TensorOp::token_shift(&mix, &x, sx2.view(), &out);
    assert!(matches!(
        r,
        Err(TensorError::ShapeMismatch { expected, actual })
            if expected == Shape::new(8, 4, 2) && actual == Shape::new(8, 2, 2)
    ));
}

#[test]
fn token_mix_and_channel_mix_check_state() {
    let mask = TensorGpu::new(Shape::new(1, 1, 1), Scalar::U32, Kind::Uniform, "mask");
    let decay = gpu(Shape::new(8, 1, 1), Scalar::F32, "decay");
    let first = gpu(Shape::new(8, 1, 1), Scalar::F32, "first");
    let x = gpu(Shape::new(8, 3, 2), Scalar::F32, "x");
    let k = gpu(Shape::new(8, 3, 2), Scalar::F32, "k");
    let v = gpu(Shape::new(8, 3, 2), Scalar::F32, "v");
    let r = gpu(Shape::new(8, 3, 2), Scalar::F32, "r");
    let out = gpu(Shape::new(8, 3, 2), Scalar::F32, "out");
    let state = gpu(Shape::new(8, 5, 2), Scalar::F32, "state");

    let att = state.as_view(Axis::Full, Axis::Range(0, 4), Axis::Full).unwrap();
    let op = TensorOp::token_mix(&mask, &decay, &first, &x, &k, &v, &r, &out, att).unwrap();
    assert_eq!(op.pipeline, "token_mix");
    assert_eq!(op.dispatch, [1, 1, 2]);
    assert_eq!(op.bindings.len(), 11);
    assert!(is_buffer(&op.bindings[10].resource, "state"));

    let ffn = state.as_view(Axis::Full, Axis::Index(4), Axis::Full).unwrap();
    let op = TensorOp::channel_mix(&mask, &x, &r, &v, &out, ffn).unwrap();
    assert_eq!(op.pipeline, "channel_mix");
    assert_eq!(op.dispatch, [1, 3, 2]);

    let wrong = state.as_view(Axis::Full, Axis::Range(0, 2), Axis::Full).unwrap();
    assert!(TensorOp::channel_mix(&mask, &x, &r, &v, &out, wrong).is_err());
}

#[test]
fn squared_relu_and_fp16_cast() {
    let x = gpu(Shape::new(1024, 2, 1), Scalar::F32, "x");
    let op = TensorOp::squared_relu(&x).unwrap();
    assert_eq!(op.pipeline, "squared_relu");
    assert_eq!(op.dispatch, [2, 2, 1]);
    let y = gpu(Shape::new(1024, 2, 1), Scalar::F16, "y");
    let op = TensorOp::quantize_vec_fp16(&x, &y).unwrap();
    assert_eq!(op.pipeline, "quant_vec_fp16");
    assert_eq!(op.dispatch, [2, 2, 1]);
}

#[test]
fn quantize_orders_statistics_by_longer_axis() {
    let input = gpu(Shape::new(16, 32, 1), Scalar::F16, "input");
    let mx = gpu(Shape::new(16, 1, 1), Scalar::F32, "mx");
    let rx = gpu(Shape::new(16, 1, 1), Scalar::F32, "rx");
    let my = gpu(Shape::new(32, 1, 1), Scalar::F32, "my");
    let ry = gpu(Shape::new(32, 1, 1), Scalar::F32, "ry");
    let output = gpu(Shape::new(16, 32, 1), Scalar::U8, "output");
    let ops = TensorOp::quantize_mat_int8(&input, &mx, &rx, &my, &ry, &output).unwrap();
    let names: Vec<&str> = ops.iter().map(|op| op.pipeline).collect();
    assert_eq!(
        names,
        vec!["quant_mat_int8_my", "quant_mat_int8_mx", "quant_mat_int8_rx", "quant_mat_int8_ry", "quant_mat_int8"]
    );
    assert_eq!(ops[4].dispatch, [4, 32, 1]);
    assert_eq!(ops[1].dispatch, [1, 4, 1]);

    let input = gpu(Shape::new(32, 16, 1), Scalar::F16, "input");
    let mx = gpu(Shape::new(32, 1, 1), Scalar::F32, "mx");
    let rx = gpu(Shape::new(32, 1, 1), Scalar::F32, "rx");
    let my = gpu(Shape::new(16, 1, 1), Scalar::F32, "my");
    let ry = gpu(Shape::new(16, 1, 1), Scalar::F32, "ry");
    let output = gpu(Shape::new(32, 16, 1), Scalar::U8, "output");
    let ops = TensorOp::quantize_mat_int8(&input, &mx, &rx, &my, &ry, &output).unwrap();
    assert_eq!(ops[0].pipeline, "quant_mat_int8_mx");
    assert_eq!(ops[1].pipeline, "quant_mat_int8_my");
}

#[test]
fn test_blit() {
    let output = gpu(Shape::new(4, 3, 2), Scalar::F32, "output");
    let input = gpu(Shape::new(4, 1, 2), Scalar::F32, "input");
    let op = TensorOp::blit(
        input.as_view(Axis::Full, Axis::Full, Axis::Full).unwrap(),
        output.as_view(Axis::Full, Axis::Index(1), Axis::Full).unwrap(),
    )
    .unwrap();
    assert_eq!(op.pipeline, "blit");
    assert_eq!(op.dispatch, [1, 1, 2]);

    let input2 = gpu(Shape::new(4, 1, 1), Scalar::F32, "input2");
    let target = output.as_view(Axis::Full, Axis::From(2), Axis::Range(1, 2)).unwrap();
    assert_eq!(target.get_offset(), Shape::new(0, 2, 1));
    assert!(TensorOp::blit(input2.view(), target).is_ok());

    let mut host = TensorCpu::from_data(Shape::new(4, 3, 2), vec![0.0f32; 24]).unwrap();
    let source = TensorCpu::from_data(Shape::new(4, 1, 2), (0..8).map(|x| x as f32).collect()).unwrap();
    host.blit(Axis::Full, Axis::Index(1), Axis::Full, &source).unwrap();
    let source = TensorCpu::from_data(Shape::new(4, 1, 1), (8..12).map(|x| x as f32).collect()).unwrap();
    host.blit(Axis::Full, Axis::From(2), Axis::Range(1, 2), &source).unwrap();
    assert_eq!(
        host.to_vec(),
        vec![
            0.0, 0.0, 0.0, 0.0, 0.0, 1.0, 2.0, 3.0, 0.0, 0.0, 0.0, 0.0, 0.0, 0.0, 0.0, 0.0,
            4.0, 5.0, 6.0, 7.0, 8.0, 9.0, 10.0, 11.0
        ]
    );
}

#[test]
fn blit_rejects_other_shape() {
    let output = gpu(Shape::new(4, 3, 2), Scalar::F32, "output");
    let input = gpu(Shape::new(4, 2, 2), Scalar::F32, "input");
    let r = TensorOp::blit(input.view(), output.as_view(Axis::Full, Axis::Index(1), Axis::Full).unwrap());
    assert!(matches!(
        r,
        Err(TensorError::ShapeMismatch { expected, actual })
            if expected == Shape::new(4, 1, 2) && actual == Shape::new(4, 2, 2)
    ));
}

#[test]
fn view_out_of_bounds_fails() {
    let t = gpu(Shape::new(4, 3, 2), Scalar::F32, "t");
    assert!(matches!(
        t.as_view(Axis::From(5), Axis::Full, Axis::Full),
        Err(TensorError::OutOfBounds { axis: 0, .. })
    ));
    assert!(matches!(
        t.as_view(Axis::Full, Axis::Range(2, 4), Axis::Full),
        Err(TensorError::OutOfBounds { axis: 1, start: 2, end: 4, dim: 3 })
    ));
    assert!(matches!(
        t.as_view(Axis::Full, Axis::Full, Axis::Index(2)),
        Err(TensorError::OutOfBounds { axis: 2, .. })
    ));
    assert!(matches!(
        t.as_view(Axis::Range(3, 1), Axis::Full, Axis::Full),
        Err(TensorError::OutOfBounds { axis: 0, .. })
    ));
    let v = t.as_view(Axis::To(2), Axis::Index(2), Axis::Full).unwrap();
    assert_eq!(v.get_shape(), Shape::new(2, 1, 2));
    assert_eq!(v.get_offset(), Shape::new(0, 2, 0));
}
