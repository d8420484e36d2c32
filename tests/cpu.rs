use web_rwkv::cpu::TensorCpu;
use web_rwkv::shape::{buffer_size, Axis, Scalar, Shape, TensorError};

#[test]
fn from_data_checks_length() {
    let r = TensorCpu::from_data(Shape::new(2, 3, 1), vec![1u32, 2, 3, 4, 5]);
    assert!(matches!(
        r,
        Err(TensorError::ShapeMismatch { expected, actual })
            if expected == Shape::new(2, 3, 1) && actual == Shape::new(5, 1, 1)
    ));
    let x = TensorCpu::from_data(Shape::new(2, 3, 1), vec![1u32, 2, 3, 4, 5, 6]).unwrap();
    assert_eq!(x.get_shape(), Shape::new(2, 3, 1));
    let empty = TensorCpu::from_data(Shape::new(0, 3, 1), Vec::<u32>::new()).unwrap();
    assert_eq!(empty.to_vec(), Vec::<u32>::new());
}

#[test]
fn slice_picks_a_region() {
    let data: Vec<u32> = (0..24).collect();
    let x = TensorCpu::from_data(Shape::new(4, 3, 2), data).unwrap();
    let row = x.slice(Axis::Full, Axis::Index(1), Axis::Full).unwrap();
    assert_eq!(row.get_shape(), Shape::new(4, 1, 2));
    assert_eq!(row.to_vec(), vec![4, 5, 6, 7, 16, 17, 18, 19]);
    let corner = x.slice(Axis::Range(1, 3), Axis::From(2), Axis::Index(1)).unwrap();
    assert_eq!(corner.to_vec(), vec![21, 22]);
    assert!(matches!(
        x.slice(Axis::Full, Axis::Full, Axis::Index(2)),
        Err(TensorError::OutOfBounds { axis: 2, start: 2, end: 2, dim: 2 })
    ));
}

#[test]
fn blit_then_slice_reads_back_source() {
    let mut x = TensorCpu::from_data(Shape::new(3, 2, 2), vec![0i32; 12]).unwrap();
    let source = TensorCpu::from_data(Shape::new(2, 1, 2), vec![1, 2, 3, 4]).unwrap();
    x.blit(Axis::From(1), Axis::Index(1), Axis::Full, &source).unwrap();
    assert_eq!(x.slice(Axis::From(1), Axis::Index(1), Axis::Full).unwrap().to_vec(), vec![1, 2, 3, 4]);
    assert_eq!(x.to_vec(), vec![0, 0, 0, 0, 1, 2, 0, 0, 0, 0, 3, 4]);
}

#[test]
fn blit_of_other_shape_changes_nothing() {
    let mut x = TensorCpu::from_data(Shape::new(2, 2, 1), vec![7u8; 4]).unwrap();
    let source = TensorCpu::from_data(Shape::new(2, 2, 1), vec![1u8; 4]).unwrap();
    let r = x.blit(Axis::Full, Axis::Index(0), Axis::Full, &source);
    assert!(matches!(
        r,
        Err(TensorError::ShapeMismatch { expected, actual })
            if expected == Shape::new(2, 1, 1) && actual == Shape::new(2, 2, 1)
    ));
    assert!(x.blit(Axis::Full, Axis::Index(2), Axis::Full, &source).is_err());
    assert_eq!(x.to_vec(), vec![7u8; 4]);
}

#[test]
fn buffer_size_is_elements_times_scalar_size() {
    assert_eq!(buffer_size(Shape::new(4, 3, 2), Scalar::F32), Some(96));
    assert_eq!(buffer_size(Shape::new(4, 3, 2), Scalar::F16), Some(48));
    assert_eq!(buffer_size(Shape::new(4, 3, 2), Scalar::U8), Some(24));
    assert_eq!(buffer_size(Shape::new(4, 3, 2), Scalar::U32), Some(96));
    assert_eq!(buffer_size(Shape::new(0, 3, 2), Scalar::F32), Some(0));
    assert_eq!(buffer_size(Shape::new(usize::MAX, 2, 1), Scalar::U8), None);
    assert_eq!(buffer_size(Shape::new(usize::MAX / 2, 1, 1), Scalar::F32), None);
    assert_eq!(Shape::new(4, 3, 2).len(), 24);
}
