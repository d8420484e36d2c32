use vstd::prelude::*;
use crate::shape::{buffer_size, byte_size, Axis, Kind, Scalar, Shape, TensorError};

verus! {

/// What a kernel binding slot is given.
pub enum Resource<'a, B> {
    /// The metadata of a whole tensor: its shape.
    Shape(Shape),
    /// The metadata of a view: its shape, the shape of the tensor it lies in
    /// (from which the strides follow) and where it starts in that tensor.
    View { shape: Shape, stride: Shape, offset: Shape },
    /// A data buffer, bound whole.
    Buffer(&'a B),
}

/// A tensor on the device: a shape, an element type, a kind and the buffer
/// that holds its data (of `byte_size(shape, scalar)` bytes).
pub struct TensorGpu<B> {
    pub shape: Shape,
    pub scalar: Scalar,
    pub kind: Kind,
    pub buffer: B,
}

impl<B> TensorGpu<B> {
    /// The tensor's size in bytes fits a `usize`.
    pub open spec fn wf(&self) -> bool {
        byte_size(self.shape, self.scalar) <= usize::MAX
    }

    pub fn new(shape: Shape, scalar: Scalar, kind: Kind, buffer: B) -> (r: Self)
        ensures
            r.shape == shape,
            r.scalar == scalar,
            r.kind == kind,
            r.buffer == buffer,
    {
        TensorGpu { shape, scalar, kind, buffer }
    }

    /// Size of the tensor's buffer in bytes.
    pub fn size(&self) -> (r: usize)
        requires
            self.wf(),
        ensures
            r == byte_size(self.shape, self.scalar),
    {
        match buffer_size(self.shape, self.scalar) {
            Some(size) => size,
            None => 0,
        }
    }

    pub fn check_shape(&self, expected: Shape) -> (r: Result<(), TensorError>)
        ensures
            r == self.shape.check_spec(expected),
    {
        self.shape.check(expected)
    }

    /// The binding of this tensor's metadata.
    pub fn meta_binding(&self) -> (r: Resource<'_, B>)
        ensures
            r == Resource::<B>::Shape(self.shape),
    {
        Resource::Shape(self.shape)
    }

    /// The binding of this tensor's data.
    pub fn binding(&self) -> (r: Resource<'_, B>)
        ensures
            r == Resource::Buffer(&self.buffer),
    {
        Resource::Buffer(&self.buffer)
    }

    /// A view of the whole tensor.
    pub fn view(&self) -> (r: TensorView<'_, B>)
        ensures
            r.tensor() == self,
            r.offset() == Shape::new_spec(0, 0, 0),
            r.shape() == self.shape,
    {
        TensorView { tensor: self, offset: Shape::new(0, 0, 0), shape: self.shape }
    }

    /// A view of the rectangular region `c × t × b` of this tensor.
    pub fn as_view(&self, c: Axis, t: Axis, b: Axis) -> (r: Result<TensorView<'_, B>, TensorError>)
        ensures
            !c.fits(self.shape.c as nat) ==> r is Err && r->Err_0 is OutOfBounds
                && r->Err_0->OutOfBounds_axis == 0,
            c.fits(self.shape.c as nat) && !t.fits(self.shape.t as nat) ==> r is Err
                && r->Err_0 is OutOfBounds && r->Err_0->OutOfBounds_axis == 1,
            c.fits(self.shape.c as nat) && t.fits(self.shape.t as nat) && !b.fits(
                self.shape.b as nat,
            ) ==> r is Err && r->Err_0 is OutOfBounds && r->Err_0->OutOfBounds_axis == 2,
            c.fits(self.shape.c as nat) && t.fits(self.shape.t as nat) && b.fits(self.shape.b as nat)
                ==> r is Ok,
            r matches Ok(view) ==> {
                &&& c.fits(self.shape.c as nat)
                &&& t.fits(self.shape.t as nat)
                &&& b.fits(self.shape.b as nat)
                &&& view.tensor() == self
                &&& view.offset() == Shape::new_spec(
                    c.bounds(self.shape.c as nat).0 as usize,
                    t.bounds(self.shape.t as nat).0 as usize,
                    b.bounds(self.shape.b as nat).0 as usize,
                )
                &&& view.shape() == Shape::new_spec(
                    (c.bounds(self.shape.c as nat).1 - c.bounds(self.shape.c as nat).0) as usize,
                    (t.bounds(self.shape.t as nat).1 - t.bounds(self.shape.t as nat).0) as usize,
                    (b.bounds(self.shape.b as nat).1 - b.bounds(self.shape.b as nat).0) as usize,
                )
            },
    {
        let (c0, c1) = c.resolve(0, self.shape.c)?;
        let (t0, t1) = t.resolve(1, self.shape.t)?;
        let (b0, b1) = b.resolve(2, self.shape.b)?;
        Ok(
            TensorView {
                tensor: self,
                offset: Shape::new(c0, t0, b0),
                shape: Shape::new(c1 - c0, t1 - t0, b1 - b0),
            },
        )
    }
}

/// A rectangular region of a device tensor; it shares the tensor's buffer.
pub struct TensorView<'a, B> {
    tensor: &'a TensorGpu<B>,
    offset: Shape,
    shape: Shape,
}

/// `inner`, placed at `offset`, lies within `outer`.
pub open spec fn region_within(offset: Shape, inner: Shape, outer: Shape) -> bool {
    &&& offset.c + inner.c <= outer.c
    &&& offset.t + inner.t <= outer.t
    &&& offset.b + inner.b <= outer.b
}

impl<'a, B> TensorView<'a, B> {
    #[verifier::type_invariant]
    spec fn inv(&self) -> bool {
        region_within(self.offset, self.shape, self.tensor.shape)
    }

    pub closed spec fn tensor(&self) -> &'a TensorGpu<B> {
        self.tensor
    }

    pub closed spec fn offset(&self) -> Shape {
        self.offset
    }

    pub closed spec fn shape(&self) -> Shape {
        self.shape
    }

    /// The view's shape; every view lies within the tensor that it views.
    pub fn get_shape(&self) -> (r: Shape)
        ensures
            r == self.shape(),
            region_within(self.offset(), self.shape(), self.tensor().shape),
    {
        proof {
            use_type_invariant(self);
        }
        self.shape
    }

    pub fn get_offset(&self) -> (r: Shape)
        ensures
            r == self.offset(),
    {
        self.offset
    }

    pub fn check_shape(&self, expected: Shape) -> (r: Result<(), TensorError>)
        ensures
            r == self.shape().check_spec(expected),
    {
        self.shape.check(expected)
    }

    /// The binding of this view's metadata.
    pub fn meta_binding(&self) -> (r: Resource<'a, B>)
        ensures
            r == view_meta(self),
    {
        Resource::View { shape: self.shape, stride: self.tensor.shape, offset: self.offset }
    }

    /// The binding of the data of the tensor that this view lies in.
    pub fn binding(&self) -> (r: Resource<'a, B>)
        ensures
            r == Resource::Buffer(&self.tensor().buffer),
    {
        Resource::Buffer(&self.tensor.buffer)
    }
}

/// The metadata that a kernel is given for a view.
pub open spec fn view_meta<'a, B>(view: &TensorView<'a, B>) -> Resource<'a, B> {
    Resource::View { shape: view.shape(), stride: view.tensor().shape, offset: view.offset() }
}

} // verus!
