use vstd::prelude::*;

verus! {

/// Extent of a tensor along its three axes: channel, token and batch.
#[derive(Debug, Clone, Copy, PartialEq, Eq, Structural, Hash)]
pub struct Shape {
    pub c: usize,
    pub t: usize,
    pub b: usize,
}

/// Errors of the tensor layer.
#[derive(Debug, Clone, Copy, PartialEq, Eq, Structural, Hash)]
pub enum TensorError {
    /// A tensor does not have the shape that an operation declares for it.
    ShapeMismatch { expected: Shape, actual: Shape },
    /// A view range does not lie within its tensor along `axis`.
    OutOfBounds { axis: usize, start: usize, end: usize, dim: usize },
    /// A batch index at or past the number of batches.
    BatchOutOfRange { batch: usize, max: usize },
    /// A layer index at or past the number of layers.
    LayerOutOfRange { layer: usize, max: usize },
}

impl Shape {
    pub fn new(c: usize, t: usize, b: usize) -> (r: Shape)
        ensures
            r == (Shape { c, t, b }),
    {
        Shape { c, t, b }
    }

    pub open spec fn new_spec(c: usize, t: usize, b: usize) -> Shape {
        Shape { c, t, b }
    }

    /// The outcome of checking that this shape is `expected`.
    pub open spec fn check_spec(self, expected: Shape) -> Result<(), TensorError> {
        if self == expected {
            Ok(())
        } else {
            Err(TensorError::ShapeMismatch { expected, actual: self })
        }
    }

    /// Number of elements of a tensor of this shape.
    pub open spec fn spec_len(&self) -> nat {
        (self.c as nat) * (self.t as nat) * (self.b as nat)
    }

    pub fn len(&self) -> (r: usize)
        requires
            self.spec_len() <= usize::MAX,
        ensures
            r == self.spec_len(),
    {
        if self.c == 0 || self.t == 0 || self.b == 0 {
            proof {
                assert(self.spec_len() == 0) by (nonlinear_arith)
                    requires
                        self.c == 0 || self.t == 0 || self.b == 0,
                        self.spec_len() == self.c * self.t * self.b,
                ;
            }
            0
        } else {
            proof {
                assert(self.c * self.t <= self.c * self.t * self.b) by (nonlinear_arith)
                    requires
                        self.b >= 1,
                        self.c * self.t >= 0,
                ;
            }
            self.c * self.t * self.b
        }
    }

    /// Checks that this shape is `expected`.
    pub fn check(&self, expected: Shape) -> (r: Result<(), TensorError>)
        ensures
            r == self.check_spec(expected),
    {
        if self.c == expected.c && self.t == expected.t && self.b == expected.b {
            Ok(())
        } else {
            Err(TensorError::ShapeMismatch { expected, actual: *self })
        }
    }
}

/// Scalar type of the elements of a tensor.
#[derive(Debug, Clone, Copy, PartialEq, Eq, Structural, Hash)]
pub enum Scalar {
    F32,
    F16,
    U8,
    U32,
}

impl Scalar {
    /// Size of one element in bytes.
    pub open spec fn spec_size(&self) -> nat {
        match self {
            Scalar::F32 => 4,
            Scalar::F16 => 2,
            Scalar::U8 => 1,
            Scalar::U32 => 4,
        }
    }

    pub fn size(&self) -> (r: usize)
        ensures
            r == self.spec_size(),
    {
        match self {
            Scalar::F32 => 4,
            Scalar::F16 => 2,
            Scalar::U8 => 1,
            Scalar::U32 => 4,
        }
    }
}

/// Number of bytes of a tensor of `shape` with elements of `scalar`.
pub open spec fn byte_size(shape: Shape, scalar: Scalar) -> nat {
    shape.spec_len() * scalar.spec_size()
}

/// Bytes of a tensor of `shape` with elements of `scalar`, if that fits a `usize`.
pub fn buffer_size(shape: Shape, scalar: Scalar) -> (r: Option<usize>)
    ensures
        r == if byte_size(shape, scalar) <= usize::MAX {
            Some(byte_size(shape, scalar) as usize)
        } else {
            None::<usize>
        },
{
    let size = scalar.size();
    let c = shape.c as u128;
    let t = shape.t as u128;
    let b = shape.b as u128;
    proof {
        assert(c * t <= u64::MAX * u64::MAX) by (nonlinear_arith)
            requires
                c <= u64::MAX,
                t <= u64::MAX,
        ;
    }
    let ct = c * t;
    if b > 0 && ct > usize::MAX as u128 / b {
        proof {
            assert(ct * b > usize::MAX) by (nonlinear_arith)
                requires
                    b > 0,
                    ct > usize::MAX as int / b as int,
            ;
            assert(ct * b <= ct * b * size) by (nonlinear_arith)
                requires
                    size >= 1,
                    ct * b >= 0,
            ;
        }
        return None;
    }
    proof {
        assert(ct * b <= usize::MAX) by (nonlinear_arith)
            requires
                b == 0 || ct <= usize::MAX as int / b as int,
        ;
    }
    let len = ct * b;
    if len > usize::MAX as u128 / 4 {
        if len > usize::MAX as u128 / size as u128 {
            proof {
                assert(len * size > usize::MAX) by (nonlinear_arith)
                    requires
                        size >= 1,
                        len > usize::MAX as int / size as int,
                ;
            }
            return None;
        }
    }
    proof {
        assert(len * size <= usize::MAX) by (nonlinear_arith)
            requires
                1 <= size <= 4,
                len <= usize::MAX as int / 4 || len <= usize::MAX as int / size as int,
        ;
    }
    Some((len * size as u128) as usize)
}

/// The kind of a device tensor, which selects the uses its buffer allows.
#[derive(Debug, Clone, Copy, PartialEq, Eq, Structural, Hash)]
pub enum Kind {
    /// Small read-only parameters.
    Uniform,
    /// Storage that kernels read and write.
    ReadWrite,
    /// A host-mappable destination for read-back.
    ReadBack,
}

/// A range along one axis of a tensor, as given to make a view.
#[derive(Debug, Clone, Copy, PartialEq, Eq, Structural, Hash)]
pub enum Axis {
    /// The whole axis.
    Full,
    /// From `start` to the end of the axis.
    From(usize),
    /// From the start of the axis up to `end`, excluded.
    To(usize),
    /// From `start` up to `end`, excluded.
    Range(usize, usize),
    /// The single position `index`.
    Index(usize),
}

impl Axis {
    /// The half-open range that this axis range stands for on an axis of extent `dim`.
    pub open spec fn bounds(self, dim: nat) -> (int, int) {
        match self {
            Axis::Full => (0, dim as int),
            Axis::From(start) => (start as int, dim as int),
            Axis::To(end) => (0, end as int),
            Axis::Range(start, end) => (start as int, end as int),
            Axis::Index(index) => (index as int, index + 1),
        }
    }

    /// The range lies within an axis of extent `dim`.
    pub open spec fn fits(self, dim: nat) -> bool {
        let (start, end) = self.bounds(dim);
        0 <= start <= end <= dim
    }

    /// Resolves this range on axis number `axis`, of extent `dim`, to a start and an end.
    pub fn resolve(&self, axis: usize, dim: usize) -> (r: Result<(usize, usize), TensorError>)
        ensures
            self.fits(dim as nat) ==> r == Ok::<(usize, usize), TensorError>(
                (self.bounds(dim as nat).0 as usize, self.bounds(dim as nat).1 as usize),
            ),
            !self.fits(dim as nat) ==> r is Err && r->Err_0 is OutOfBounds
                && r->Err_0->OutOfBounds_axis == axis && r->Err_0->OutOfBounds_dim == dim,
    {
        let (start, end) = match *self {
            Axis::Full => (0, dim),
            Axis::From(start) => (start, dim),
            Axis::To(end) => (0, end),
            Axis::Range(start, end) => (start, end),
            Axis::Index(index) => {
                if index >= dim {
                    return Err(TensorError::OutOfBounds { axis, start: index, end: index, dim });
                }
                (index, index + 1)
            },
        };
        if start > end || end > dim {
            Err(TensorError::OutOfBounds { axis, start, end, dim })
        } else {
            Ok((start, end))
        }
    }
}

} // verus!
