use vstd::prelude::*;
use vstd::arithmetic::div_mod::{
    lemma_div_denominator, lemma_fundamental_div_mod, lemma_fundamental_div_mod_converse,
};
use crate::shape::{Axis, Shape, TensorError};

verus! {

/// Position in the data of a tensor of `shape` of the element at channel `c`,
/// token `t` and batch `b`: channels vary fastest, then tokens, then batches.
pub open spec fn index_of(shape: Shape, c: int, t: int, b: int) -> int {
    (b * shape.t + t) * shape.c + c
}

/// The elements of the region of extent `extent` placed at `offset` in `data`,
/// laid out as a tensor of shape `extent`.
pub open spec fn window<T>(data: Seq<T>, shape: Shape, offset: Shape, extent: Shape) -> Seq<T> {
    Seq::new(
        extent.spec_len(),
        |p: int|
            data[index_of(
                shape,
                offset.c + p % (extent.c as int),
                offset.t + (p / (extent.c as int)) % (extent.t as int),
                offset.b + p / (extent.c as int) / (extent.t as int),
            )],
    )
}

/// `data`, a tensor of `shape`, with the region of extent `extent` placed at
/// `offset` replaced by `source`, and every other element kept.
pub open spec fn overlay<T>(
    data: Seq<T>,
    shape: Shape,
    offset: Shape,
    source: Seq<T>,
    extent: Shape,
) -> Seq<T> {
    Seq::new(
        data.len(),
        |p: int|
            {
                let c = p % (shape.c as int);
                let t = (p / (shape.c as int)) % (shape.t as int);
                let b = p / (shape.c as int) / (shape.t as int);
                if offset.c <= c < offset.c + extent.c && offset.t <= t < offset.t + extent.t
                    && offset.b <= b < offset.b + extent.b {
                    source[index_of(extent, c - offset.c, t - offset.t, b - offset.b)]
                } else {
                    data[p]
                }
            },
    )
}

/// The coordinates of the element at `index_of(shape, c, t, b)` are `c`, `t` and `b`.
proof fn lemma_coords_of_index(shape: Shape, c: int, t: int, b: int)
    requires
        0 <= c < shape.c,
        0 <= t < shape.t,
        0 <= b,
    ensures
        index_of(shape, c, t, b) % (shape.c as int) == c,
        (index_of(shape, c, t, b) / (shape.c as int)) % (shape.t as int) == t,
        index_of(shape, c, t, b) / (shape.c as int) / (shape.t as int) == b,
{
    let p = index_of(shape, c, t, b);
    let row = b * shape.t + t;
    lemma_fundamental_div_mod_converse(p, shape.c as int, row, c);
    lemma_fundamental_div_mod_converse(row, shape.t as int, b, t);
}

/// The element at position `p` is the one at its coordinates.
proof fn lemma_index_of_coords(shape: Shape, p: int)
    requires
        0 <= p,
        shape.c > 0,
        shape.t > 0,
    ensures
        index_of(
            shape,
            p % (shape.c as int),
            (p / (shape.c as int)) % (shape.t as int),
            p / (shape.c as int) / (shape.t as int),
        ) == p,
{
    lemma_fundamental_div_mod(p, shape.c as int);
    lemma_fundamental_div_mod(p / (shape.c as int), shape.t as int);
    let q = p / (shape.c as int);
    assert((q / (shape.t as int)) * shape.t + q % (shape.t as int) == q) by (nonlinear_arith)
        requires
            q == shape.t * (q / (shape.t as int)) + q % (shape.t as int),
    ;
    assert(q * shape.c + p % (shape.c as int) == p) by (nonlinear_arith)
        requires
            p == shape.c * q + p % (shape.c as int),
    ;
}

/// A blit writes exactly its region: the element at `(c, t, b)` of the region
/// becomes the element at the same place of `source`, and every element outside
/// the region keeps its value.
pub proof fn lemma_blit_region<T>(
    data: Seq<T>,
    shape: Shape,
    offset: Shape,
    source: Seq<T>,
    extent: Shape,
)
    requires
        data.len() == shape.spec_len(),
        source.len() == extent.spec_len(),
        offset.c + extent.c <= shape.c,
        offset.t + extent.t <= shape.t,
        offset.b + extent.b <= shape.b,
    ensures
        forall|c: int, t: int, b: int|
            0 <= c < extent.c && 0 <= t < extent.t && 0 <= b < extent.b ==> #[trigger] overlay(
                data,
                shape,
                offset,
                source,
                extent,
            )[index_of(shape, offset.c + c, offset.t + t, offset.b + b)] == source[index_of(
                extent,
                c,
                t,
                b,
            )],
        forall|c: int, t: int, b: int|
            0 <= c < shape.c && 0 <= t < shape.t && 0 <= b < shape.b && !(offset.c <= c
                < offset.c + extent.c && offset.t <= t < offset.t + extent.t && offset.b <= b
                < offset.b + extent.b) ==> #[trigger] overlay(data, shape, offset, source, extent)[index_of(
                shape,
                c,
                t,
                b,
            )] == data[index_of(shape, c, t, b)],
{
    let over = overlay(data, shape, offset, source, extent);
    assert forall|c: int, t: int, b: int|
        0 <= c < extent.c && 0 <= t < extent.t && 0 <= b < extent.b implies #[trigger] over[index_of(
        shape,
        offset.c + c,
        offset.t + t,
        offset.b + b,
    )] == source[index_of(extent, c, t, b)] by {
        lemma_index_in_bounds(shape, offset.c + c, offset.t + t, offset.b + b);
        lemma_coords_of_index(shape, offset.c + c, offset.t + t, offset.b + b);
    }
    assert forall|c: int, t: int, b: int|
        0 <= c < shape.c && 0 <= t < shape.t && 0 <= b < shape.b && !(offset.c <= c < offset.c
            + extent.c && offset.t <= t < offset.t + extent.t && offset.b <= b < offset.b
            + extent.b) implies #[trigger] over[index_of(shape, c, t, b)] == data[index_of(
        shape,
        c,
        t,
        b,
    )] by {
        lemma_index_in_bounds(shape, c, t, b);
        lemma_coords_of_index(shape, c, t, b);
    }
}

/// Writing `source` into a region and then reading that region back gives `source`.
pub proof fn lemma_blit_then_read<T>(
    data: Seq<T>,
    shape: Shape,
    offset: Shape,
    source: Seq<T>,
    extent: Shape,
)
    requires
        data.len() == shape.spec_len(),
        source.len() == extent.spec_len(),
        offset.c + extent.c <= shape.c,
        offset.t + extent.t <= shape.t,
        offset.b + extent.b <= shape.b,
    ensures
        window(overlay(data, shape, offset, source, extent), shape, offset, extent) == source,
{
    let over = overlay(data, shape, offset, source, extent);
    let w = window(over, shape, offset, extent);
    assert forall|q: int| 0 <= q < source.len() implies #[trigger] w[q] == source[q] by {
        lemma_coords(q, extent.c as int, extent.t as int, extent.b as int);
        let i = q % (extent.c as int);
        let j = (q / (extent.c as int)) % (extent.t as int);
        let k = q / (extent.c as int) / (extent.t as int);
        lemma_index_in_bounds(shape, offset.c + i, offset.t + j, offset.b + k);
        lemma_coords_of_index(shape, offset.c + i, offset.t + j, offset.b + k);
        lemma_index_of_coords(extent, q);
    }
    assert(w =~= source);
}

proof fn lemma_coords(p: int, c: int, t: int, b: int)
    requires
        0 <= p < c * t * b,
        c >= 0,
        t >= 0,
        b >= 0,
    ensures
        0 <= p % c < c,
        0 <= (p / c) % t < t,
        0 <= p / c / t < b,
{
    assert(c > 0 && t > 0) by (nonlinear_arith)
        requires
            0 <= p < c * t * b,
            c >= 0,
            t >= 0,
            b >= 0,
    ;
    lemma_fundamental_div_mod(p, c);
    lemma_fundamental_div_mod(p / c, t);
    lemma_div_denominator(p, c, t);
    lemma_fundamental_div_mod(p, c * t);
    assert(0 <= p / (c * t) < b) by (nonlinear_arith)
        requires
            p == (c * t) * (p / (c * t)) + p % (c * t),
            0 <= p % (c * t),
            0 <= p < c * t * b,
            c > 0,
            t > 0,
    ;
    assert(0 <= p / c) by (nonlinear_arith)
        requires
            p >= 0,
            c > 0,
    ;
}

proof fn lemma_index_in_bounds(shape: Shape, c: int, t: int, b: int)
    requires
        0 <= c < shape.c,
        0 <= t < shape.t,
        0 <= b < shape.b,
    ensures
        0 <= index_of(shape, c, t, b) < shape.spec_len(),
{
    let cc = shape.c as int;
    let tt = shape.t as int;
    let bb = shape.b as int;
    assert(0 <= (b * tt + t) * cc + c < cc * tt * bb) by (nonlinear_arith)
        requires
            0 <= c < cc,
            0 <= t < tt,
            0 <= b < bb,
    {
        assert(b * tt + t <= (bb - 1) * tt + tt - 1) by (nonlinear_arith)
            requires
                0 <= t < tt,
                0 <= b < bb,
        ;
        assert((b * tt + t) * cc <= ((bb - 1) * tt + tt - 1) * cc) by (nonlinear_arith)
            requires
                b * tt + t <= (bb - 1) * tt + tt - 1,
                cc > 0,
        ;
        assert(((bb - 1) * tt + tt - 1) * cc == cc * tt * bb - cc) by (nonlinear_arith);
        assert(0 <= b * tt + t) by (nonlinear_arith)
            requires
                0 <= t,
                0 <= b,
                0 <= tt,
        ;
        assert(0 <= (b * tt + t) * cc) by (nonlinear_arith)
            requires
                0 <= b * tt + t,
                0 <= cc,
        ;
    }
}

/// A tensor in host memory: a shape and its elements, channels varying
/// fastest, then tokens, then batches.
pub struct TensorCpu<T> {
    shape: Shape,
    data: Vec<T>,
}

impl<T> TensorCpu<T> {
    #[verifier::type_invariant]
    spec fn inv(&self) -> bool {
        self.data@.len() == self.shape.spec_len()
    }

    pub closed spec fn shape(&self) -> Shape {
        self.shape
    }

    pub closed spec fn data(&self) -> Seq<T> {
        self.data@
    }

    /// A tensor of `shape` holding `data`, whose length must be the number of
    /// elements of `shape`.
    pub fn from_data(shape: Shape, data: Vec<T>) -> (r: Result<Self, TensorError>)
        ensures
            data@.len() == shape.spec_len() ==> (r matches Ok(x) && x.shape() == shape && x.data()
                == data@),
            data@.len() != shape.spec_len() ==> r == Err::<Self, TensorError>(
                TensorError::ShapeMismatch { expected: shape, actual: Shape::new_spec(data.len(), 1, 1) },
            ),
    {
        let fits = if shape.c == 0 || shape.t == 0 || shape.b == 0 {
            proof {
                assert(shape.spec_len() == 0) by (nonlinear_arith)
                    requires
                        shape.c == 0 || shape.t == 0 || shape.b == 0,
                        shape.spec_len() == shape.c * shape.t * shape.b,
                ;
            }
            data.len() == 0
        } else {
            let n = data.len();
            if shape.c > n || shape.t > n / shape.c || shape.b > n / shape.c / shape.t {
                proof {
                    assert(shape.spec_len() != n) by (nonlinear_arith)
                        requires
                            shape.c > 0,
                            shape.t > 0,
                            shape.b > 0,
                            shape.c > n || shape.t > n as int / shape.c as int || shape.b > n as int
                                / shape.c as int / shape.t as int,
                            shape.spec_len() == shape.c * shape.t * shape.b,
                    {
                        if shape.spec_len() == n {
                            lemma_div_denominator(n as int, shape.c as int, shape.t as int);
                            assert(n as int / shape.c as int == shape.t * shape.b);
                            assert(n as int / (shape.c * shape.t) == shape.b);
                        }
                    }
                }
                false
            } else {
                proof {
                    assert(shape.c * shape.t <= n) by (nonlinear_arith)
                        requires
                            shape.c > 0,
                            shape.t <= n as int / shape.c as int,
                    {
                        lemma_fundamental_div_mod(n as int, shape.c as int);
                    }
                }
                let ct = shape.c * shape.t;
                proof {
                    assert(ct * shape.b <= n) by (nonlinear_arith)
                        requires
                            ct == shape.c * shape.t,
                            shape.c > 0,
                            shape.t > 0,
                            shape.b <= n as int / shape.c as int / shape.t as int,
                    {
                        lemma_div_denominator(n as int, shape.c as int, shape.t as int);
                        lemma_fundamental_div_mod(n as int, ct as int);
                    }
                }
                ct * shape.b == n
            }
        };
        if fits {
            Ok(TensorCpu { shape, data })
        } else {
            Err(TensorError::ShapeMismatch { expected: shape, actual: Shape::new(data.len(), 1, 1) })
        }
    }

    pub fn get_shape(&self) -> (r: Shape)
        ensures
            r == self.shape(),
            self.data().len() == r.spec_len(),
    {
        proof {
            use_type_invariant(self);
        }
        self.shape
    }

    /// The elements, channels varying fastest, then tokens, then batches.
    pub fn to_vec(self) -> (r: Vec<T>)
        ensures
            r@ == self.data(),
    {
        self.data
    }

    /// Writes `source` into the region `c × t × b` of this tensor, which must
    /// have the shape of `source`; no other element changes, and nothing does
    /// on an error.
    pub fn blit(&mut self, c: Axis, t: Axis, b: Axis, source: &TensorCpu<T>) -> (r: Result<
        (),
        TensorError,
    >)
        where
            T: Copy,
        ensures
            !c.fits(old(self).shape().c as nat) ==> r is Err && r->Err_0 is OutOfBounds
                && r->Err_0->OutOfBounds_axis == 0,
            c.fits(old(self).shape().c as nat) && !t.fits(old(self).shape().t as nat) ==> r is Err
                && r->Err_0 is OutOfBounds && r->Err_0->OutOfBounds_axis == 1,
            c.fits(old(self).shape().c as nat) && t.fits(old(self).shape().t as nat) && !b.fits(
                old(self).shape().b as nat,
            ) ==> r is Err && r->Err_0 is OutOfBounds && r->Err_0->OutOfBounds_axis == 2,
            c.fits(old(self).shape().c as nat) && t.fits(old(self).shape().t as nat) && b.fits(
                old(self).shape().b as nat,
            ) ==> {
                let (c0, c1) = c.bounds(old(self).shape().c as nat);
                let (t0, t1) = t.bounds(old(self).shape().t as nat);
                let (b0, b1) = b.bounds(old(self).shape().b as nat);
                let offset = Shape::new_spec(c0 as usize, t0 as usize, b0 as usize);
                let extent = Shape::new_spec(
                    (c1 - c0) as usize,
                    (t1 - t0) as usize,
                    (b1 - b0) as usize,
                );
                &&& r == source.shape().check_spec(extent)
                &&& r is Ok ==> final(self).data() == overlay(
                    old(self).data(),
                    old(self).shape(),
                    offset,
                    source.data(),
                    extent,
                )
            },
            final(self).shape() == old(self).shape(),
            r is Err ==> final(self).data() == old(self).data(),
    {
        proof {
            use_type_invariant(&*self);
            use_type_invariant(source);
        }
        let shape = self.shape;
        let total = self.data.len();
        let (c0, c1) = c.resolve(0, shape.c)?;
        let (t0, t1) = t.resolve(1, shape.t)?;
        let (b0, b1) = b.resolve(2, shape.b)?;
        let extent = Shape::new(c1 - c0, t1 - t0, b1 - b0);
        source.shape.check(extent)?;
        let src_total = source.data.len();
        let mut data: Vec<T> = Vec::new();
        let mut p: usize = 0;
        while p < total
            invariant
                p <= total,
                total == shape.spec_len(),
                self.data@.len() == total,
                source.data@.len() == extent.spec_len(),
                src_total == extent.spec_len(),
                shape == self.shape,
                c0 + extent.c <= shape.c,
                t0 + extent.t <= shape.t,
                b0 + extent.b <= shape.b,
                data@ =~= overlay(
                    self.data@,
                    shape,
                    Shape::new_spec(c0, t0, b0),
                    source.data@,
                    extent,
                ).take(p as int),
            decreases total - p,
        {
            proof {
                lemma_coords(p as int, shape.c as int, shape.t as int, shape.b as int);
            }
            let i = p % shape.c;
            let j = (p / shape.c) % shape.t;
            let k = p / shape.c / shape.t;
            if c0 <= i && i < c0 + extent.c && t0 <= j && j < t0 + extent.t && b0 <= k && k < b0
                + extent.b {
                let (li, lj, lk) = (i - c0, j - t0, k - b0);
                proof {
                    lemma_index_in_bounds(extent, li as int, lj as int, lk as int);
                    assert((lk * extent.t + lj) * extent.c <= index_of(
                        extent,
                        li as int,
                        lj as int,
                        lk as int,
                    ));
                    assert(lk * extent.t + lj <= (lk * extent.t + lj) * extent.c)
                        by (nonlinear_arith)
                        requires
                            extent.c >= 1,
                            lk * extent.t + lj >= 0,
                    ;
                    assert(lk * extent.t <= lk * extent.t + lj);
                    assert(lk * extent.t >= 0) by (nonlinear_arith)
                        requires
                            lk >= 0,
                            extent.t >= 0,
                    ;
                }
                let index = (lk * extent.t + lj) * extent.c + li;
                data.push(source.data[index]);
            } else {
                data.push(self.data[p]);
            }
            p += 1;
        }
        self.data = data;
        Ok(())
    }

    /// A copy of the region `c × t × b` of this tensor.
    pub fn slice(&self, c: Axis, t: Axis, b: Axis) -> (r: Result<Self, TensorError>)
        where
            T: Copy,
        ensures
            !c.fits(self.shape().c as nat) ==> r is Err && r->Err_0 is OutOfBounds
                && r->Err_0->OutOfBounds_axis == 0,
            c.fits(self.shape().c as nat) && !t.fits(self.shape().t as nat) ==> r is Err
                && r->Err_0 is OutOfBounds && r->Err_0->OutOfBounds_axis == 1,
            c.fits(self.shape().c as nat) && t.fits(self.shape().t as nat) && !b.fits(
                self.shape().b as nat,
            ) ==> r is Err && r->Err_0 is OutOfBounds && r->Err_0->OutOfBounds_axis == 2,
            c.fits(self.shape().c as nat) && t.fits(self.shape().t as nat) && b.fits(self.shape().b as nat)
                ==> r is Ok,
            r matches Ok(x) ==> {
                let (c0, c1) = c.bounds(self.shape().c as nat);
                let (t0, t1) = t.bounds(self.shape().t as nat);
                let (b0, b1) = b.bounds(self.shape().b as nat);
                let offset = Shape::new_spec(c0 as usize, t0 as usize, b0 as usize);
                &&& c.fits(self.shape().c as nat)
                &&& t.fits(self.shape().t as nat)
                &&& b.fits(self.shape().b as nat)
                &&& x.shape() == Shape::new_spec(
                    (c1 - c0) as usize,
                    (t1 - t0) as usize,
                    (b1 - b0) as usize,
                )
                &&& x.data() == window(self.data(), self.shape(), offset, x.shape())
            },
    {
        proof {
            use_type_invariant(self);
        }
        let shape = self.shape;
        let total = self.data.len();
        let (c0, c1) = c.resolve(0, shape.c)?;
        let (t0, t1) = t.resolve(1, shape.t)?;
        let (b0, b1) = b.resolve(2, shape.b)?;
        let extent = Shape::new(c1 - c0, t1 - t0, b1 - b0);
        let offset = Shape::new(c0, t0, b0);
        proof {
            assert(extent.spec_len() <= shape.spec_len()) by (nonlinear_arith)
                requires
                    extent.c <= shape.c,
                    extent.t <= shape.t,
                    extent.b <= shape.b,
            ;
        }
        let n = extent.len();
        let mut data: Vec<T> = Vec::new();
        let mut p: usize = 0;
        while p < n
            invariant
                p <= n,
                n == extent.spec_len(),
                self.data@.len() == shape.spec_len(),
                total == shape.spec_len(),
                shape == self.shape,
                offset.c + extent.c <= shape.c,
                offset.t + extent.t <= shape.t,
                offset.b + extent.b <= shape.b,
                data@ =~= window(self.data@, shape, offset, extent).take(p as int),
            decreases n - p,
        {
            proof {
                lemma_coords(p as int, extent.c as int, extent.t as int, extent.b as int);
            }
            let i = p % extent.c;
            let j = (p / extent.c) % extent.t;
            let k = p / extent.c / extent.t;
            proof {
                lemma_index_in_bounds(
                    shape,
                    (offset.c + i) as int,
                    (offset.t + j) as int,
                    (offset.b + k) as int,
                );
                assert(((offset.b + k) * shape.t + (offset.t + j)) * shape.c <= index_of(
                    shape,
                    (offset.c + i) as int,
                    (offset.t + j) as int,
                    (offset.b + k) as int,
                ));
                assert((offset.b + k) * shape.t <= (offset.b + k) * shape.t + (offset.t + j));
                assert((offset.b + k) * shape.t + (offset.t + j) <= ((offset.b + k) * shape.t + (
                offset.t + j)) * shape.c) by (nonlinear_arith)
                    requires
                        shape.c >= 1,
                        (offset.b + k) * shape.t + (offset.t + j) >= 0,
                ;
                assert((offset.b + k) * shape.t <= ((offset.b + k) * shape.t + (offset.t + j))
                    * shape.c) by (nonlinear_arith)
                    requires
                        shape.c >= 1,
                        (offset.b + k) * shape.t >= 0,
                        (offset.t + j) >= 0,
                ;
            }
            let index = ((offset.b + k) * shape.t + (offset.t + j)) * shape.c + (offset.c + i);
            data.push(self.data[index]);
            p += 1;
        }
        let x = TensorCpu { shape: extent, data };
        Ok(x)
    }
}

} // verus!
