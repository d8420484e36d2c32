use web_rwkv::cpu::TensorCpu;
use web_rwkv::model::{
    check_token_chunk_size, collect_outputs, head_chunks, take_chunk, ContextAutoLimits, Limits, ModelError,
    ModelInfo, ModelVersion,
};
use web_rwkv::shape::Shape;

fn info(num_layer: usize, num_emb: usize, num_hidden: usize, num_vocab: usize) -> ModelInfo {
    ModelInfo {
        version: ModelVersion::V4,
        num_layer,
        num_emb,
        num_hidden,
        num_vocab,
        num_head: 1,
        time_mix_adapter_size: 0,
        time_decay_adapter_size: 0,
    }
}

#[test]
fn run_on_empty_batches_fails_and_keeps_tokens() {
    let mut tokens: Vec<Vec<u16>> = vec![vec![], vec![], vec![]];
    assert_eq!(take_chunk(&mut tokens, 3, 32), Err(ModelError::EmptyInput));
    assert_eq!(tokens, vec![Vec::<u16>::new(); 3]);
}

#[test]
fn run_with_wrong_batch_count_fails_and_keeps_tokens() {
    let mut tokens: Vec<Vec<u16>> = vec![vec![1, 2], vec![3]];
    assert_eq!(take_chunk(&mut tokens, 3, 32), Err(ModelError::BatchSize(2, 3)));
    assert_eq!(tokens, vec![vec![1, 2], vec![3]]);
}

#[test]
fn run_takes_a_chunk_in_batch_order() {
    let mut tokens: Vec<Vec<u16>> = vec![vec![1, 2, 3], vec![], vec![4, 5, 6, 7], vec![8]];
    let (inputs, last) = take_chunk(&mut tokens, 4, 5).unwrap();
    assert_eq!(inputs, vec![vec![1, 2, 3], vec![], vec![4, 5], vec![]]);
    assert_eq!(tokens, vec![vec![], vec![], vec![6, 7], vec![8]]);
    assert_eq!(last, Some(2));

    let (inputs, last) = take_chunk(&mut tokens, 4, 5).unwrap();
    assert_eq!(inputs, vec![vec![], vec![], vec![6, 7], vec![8]]);
    assert_eq!(tokens, vec![Vec::<u16>::new(); 4]);
    assert_eq!(last, None);
}

#[test]
fn run_with_budget_ending_on_a_batch_boundary() {
    let mut tokens: Vec<Vec<u16>> = vec![vec![1, 2], vec![3, 4]];
    let (inputs, last) = take_chunk(&mut tokens, 2, 2).unwrap();
    assert_eq!(inputs, vec![vec![1, 2], vec![]]);
    assert_eq!(tokens, vec![vec![], vec![3, 4]]);
    assert_eq!(last, None);
}

#[test]
fn chunked_prompt_is_fed_whole_and_in_order() {
    let prompt: Vec<u16> = (0..30).collect();
    let mut tokens = vec![prompt.clone()];
    let mut fed: Vec<u16> = vec![];
    let mut steps = 0;
    while !tokens[0].is_empty() {
        let (inputs, _) = take_chunk(&mut tokens, 1, 8).unwrap();
        assert!(inputs[0].len() <= 8);
        fed.extend(inputs[0].iter().copied());
        steps += 1;
    }
    assert_eq!(fed, prompt);
    assert_eq!(steps, 4);
}

#[test]
fn collect_outputs_picks_rows() {
    let output = TensorCpu::from_data(Shape::new(3, 2, 1), vec![1u32, 2, 3, 4, 5, 6]).unwrap();
    let r = collect_outputs(&output, &vec![None, Some(1), Some(0)]);
    assert_eq!(r, vec![None, Some(vec![4, 5, 6]), Some(vec![1, 2, 3])]);
}

#[test]
fn token_chunk_size_must_be_power_of_two() {
    assert_eq!(check_token_chunk_size(32), Ok(()));
    assert_eq!(check_token_chunk_size(1), Ok(()));
    assert_eq!(check_token_chunk_size(24), Err(ModelError::InvalidChunkSize(24)));
    assert_eq!(check_token_chunk_size(0), Err(ModelError::InvalidChunkSize(0)));
}

#[test]
fn buffer_sizes_of_a_model() {
    let small = info(24, 1024, 4096, 65536);
    assert_eq!(small.max_non_head_buffer_size(), 1024 * 4096 * 2);
    assert_eq!(small.head_buffer_size(), 1024 * 65536 * 2);
}

#[test]
fn auto_limits_take_the_largest_matrix() {
    let start = Limits { max_buffer_size: 0, max_storage_buffer_binding_size: 0 };
    let small = info(24, 1024, 4096, 65536);
    let limits = start.auto_limits(&small);
    assert_eq!(limits.max_buffer_size, 256 << 20);
    assert_eq!(limits.max_storage_buffer_binding_size, 128 << 20);

    let large = info(32, 4096, 16384, 65536);
    let limits = start.auto_limits(&large);
    assert_eq!(limits.max_buffer_size, 512 << 20);
    assert_eq!(limits.max_storage_buffer_binding_size, 512 << 20);

    let tiny = info(2, 64, 256, 1000);
    let limits = start.auto_limits(&tiny);
    assert_eq!(limits.max_buffer_size, 256 << 20);
}

#[test]
fn head_is_projected_in_chunks() {
    assert_eq!(head_chunks(65536, 4096).len(), 16);
    assert_eq!(head_chunks(10000, 4096), vec![(0, 4096), (4096, 8192), (8192, 10000)]);
    assert_eq!(head_chunks(4096, 4096), vec![(0, 4096)]);
    assert_eq!(head_chunks(0, 4096), vec![]);
}
