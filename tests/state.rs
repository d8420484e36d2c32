use std::collections::HashMap;
use web_rwkv::builder::{EmbedDevice, ModelBuilder, Quant};
use web_rwkv::model::{ModelInfo, ModelVersion};
use web_rwkv::runtime::take_predicted;
use web_rwkv::shape::{Kind, Scalar, Shape, TensorError};
use web_rwkv::state::{StateBuilder, StateGpu};
use web_rwkv::tensor::TensorGpu;

fn info(version: ModelVersion, num_layer: usize, num_emb: usize, num_head: usize) -> ModelInfo {
    ModelInfo {
        version,
        num_layer,
        num_emb,
        num_hidden: num_emb * 4,
        num_vocab: 65536,
        num_head,
        time_mix_adapter_size: 0,
        time_decay_adapter_size: 0,
    }
}

fn device_state(builder: &StateBuilder<()>, prefix: &str) -> StateGpu<String> {
    let layout = builder.layout();
    let chunks = (0..layout.num_chunks())
        .map(|k| {
            TensorGpu::new(layout.chunk_shape(k), Scalar::F32, Kind::ReadWrite, format!("{prefix}{k}"))
        })
        .collect();
    StateGpu { layout, chunks }
}

#[test]
fn state_builder_defaults() {
    let info = info(ModelVersion::V4, 24, 1024, 16);
    let builder = StateBuilder::new(&(), &info);
    assert_eq!(builder.max_batch, 1);
    assert_eq!(builder.chunk_size, 24);
    let builder = builder.with_max_batch(4).with_chunk_size(10);
    assert_eq!(builder.max_batch, 4);
    assert_eq!(builder.chunk_size, 10);
    assert_eq!(builder.info, info);
}

#[test]
fn layers_are_cut_into_chunks() {
    let info = info(ModelVersion::V4, 24, 1024, 16);
    let layout = StateBuilder::new(&(), &info).with_chunk_size(10).with_max_batch(2).layout();
    assert_eq!(layout.num_chunks(), 3);
    assert_eq!(layout.chunk_layers(0), 10);
    assert_eq!(layout.chunk_layers(2), 4);
    assert_eq!(layout.chunk_shape(2), Shape::new(1024, 20, 2));
    assert_eq!(layout.locate(23), Ok((2, 3)));
    assert_eq!(layout.locate(24), Err(TensorError::LayerOutOfRange { layer: 24, max: 24 }));
}

#[test]
fn v5_layers_have_a_row_per_head() {
    let info = info(ModelVersion::V5, 4, 64, 2);
    let layout = StateBuilder::new(&(), &info).layout();
    assert_eq!(layout.att_rows(), 3);
    assert_eq!(layout.chunk_shape(0), Shape::new(64, 16, 1));
}

#[test]
fn att_and_ffn_views() {
    let info = info(ModelVersion::V4, 5, 8, 1);
    let builder = StateBuilder::new(&(), &info).with_chunk_size(2).with_max_batch(3);
    let state = device_state(&builder, "s");
    let att = state.att(3).unwrap();
    assert_eq!(att.get_offset(), Shape::new(0, 5, 0));
    assert_eq!(att.get_shape(), Shape::new(8, 4, 3));
    let ffn = state.ffn(3).unwrap();
    assert_eq!(ffn.get_offset(), Shape::new(0, 9, 0));
    assert_eq!(ffn.get_shape(), Shape::new(8, 1, 3));
    let last = state.ffn(4).unwrap();
    assert_eq!(last.get_offset(), Shape::new(0, 4, 0));
    assert!(matches!(state.att(5), Err(TensorError::LayerOutOfRange { layer: 5, max: 5 })));
    assert_eq!(state.check_batch(3), Err(TensorError::BatchOutOfRange { batch: 3, max: 3 }));
}

#[test]
fn state_blit_copies_one_slot_per_chunk() {
    let info = info(ModelVersion::V4, 5, 8, 1);
    let builder = StateBuilder::new(&(), &info).with_chunk_size(2).with_max_batch(3);
    let a = device_state(&builder, "a");
    let b = device_state(&builder, "b");
    let ops = a.blit_batch(&b, 0, 2).unwrap();
    assert_eq!(ops.len(), 3);
    for op in &ops {
        assert_eq!(op.pipeline, "blit");
    }
    assert_eq!(ops[0].dispatch, [1, 10, 1]);
    assert!(matches!(a.blit_batch(&b, 3, 0), Err(TensorError::BatchOutOfRange { batch: 3, max: 3 })));
    assert!(matches!(a.blit_batch(&b, 0, 5), Err(TensorError::BatchOutOfRange { batch: 5, max: 3 })));
}

#[test]
fn model_builder_defaults_and_settings() {
    let builder: ModelBuilder<(), &[u8], u32> = ModelBuilder::new(&(), &[][..]);
    assert_eq!(builder.rescale, 6);
    assert_eq!(builder.token_chunk_size, 32);
    assert_eq!(builder.head_chunk_size, 4096);
    assert_eq!(builder.embed_device, EmbedDevice::Cpu);
    let mut quant = HashMap::new();
    quant.insert(3, Quant::Int8);
    let builder = builder.rescale(0).lora(7).add_lora(8).quant(quant).with_token_chunk_size(64);
    assert_eq!(builder.rescale, 1);
    assert_eq!(builder.lora, vec![7, 8]);
    assert_eq!(builder.quant_of(3), Quant::Int8);
    assert_eq!(builder.quant_of(4), Quant::NoQuant);
    assert_eq!(builder.token_chunk_size, 64);
    let builder = builder.rescale(6);
    assert!(builder.is_rescaled_layer(5));
    assert!(!builder.is_rescaled_layer(6));
    assert!(builder.is_rescaled_layer(11));
}

#[test]
fn predicted_job_is_reused_only_when_fit() {
    let mut predict = Some(5u32);
    assert_eq!(take_predicted(&mut predict, |job| *job == 5), Some(5));
    assert_eq!(predict, None);
    let mut predict = Some(4u32);
    assert_eq!(take_predicted(&mut predict, |job| *job == 5), None);
    assert_eq!(predict, None);
    let mut predict: Option<u32> = None;
    assert_eq!(take_predicted(&mut predict, |_| true), None);
}

#[test]
fn backed_state_embed_and_chunks() {
    let info = info(ModelVersion::V4, 3, 2, 1);
    let layout = StateBuilder::new(&(), &info).with_chunk_size(2).with_max_batch(2).layout();
    assert_eq!(layout.backed_shape(), Shape::new(2, 15, 1));
    let backed = web_rwkv::cpu::TensorCpu::from_data(Shape::new(2, 15, 1), (0..30u32).collect()).unwrap();
    assert_eq!(layout.embed(1, &backed).unwrap().to_vec(), vec![18, 19]);
    assert_eq!(layout.embed(3, &backed).err(), Some(TensorError::LayerOutOfRange { layer: 3, max: 3 }));
    let part = layout.backed_chunk(1, &backed).unwrap();
    assert_eq!(part.get_shape(), Shape::new(2, 5, 1));
    assert_eq!(part.to_vec(), (20..30u32).collect::<Vec<_>>());
    let wrong = web_rwkv::cpu::TensorCpu::from_data(Shape::new(2, 14, 1), (0..28u32).collect()).unwrap();
    assert_eq!(
        layout.embed(0, &wrong).err(),
        Some(TensorError::ShapeMismatch { expected: Shape::new(2, 15, 1), actual: Shape::new(2, 14, 1) })
    );
    assert_eq!(layout.slot_range(0, 1), Ok((80, 80)));
    assert_eq!(layout.slot_range(1, 1), Ok((40, 40)));
    assert_eq!(layout.slot_range(1, 2), Err(TensorError::BatchOutOfRange { batch: 2, max: 2 }));
}
