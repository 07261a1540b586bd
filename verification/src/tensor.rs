//! Tensor value types exchanged with the external inference engine.
//!
//! The engine itself works on floating-point buffers; this crate deals in
//! the integer views of them. [`InputTensor`] carries the resized RGB
//! samples in channel-first order, still as bytes, ready for the caller's
//! per-channel normalisation. [`ProbTensor`] carries the engine's output
//! after each logit has been squashed through a sigmoid and quantised to
//! a byte, together with the shape the engine reported.

use vstd::prelude::*;
use vstd::arithmetic::div_mod::lemma_fundamental_div_mod;

verus! {

/// The number of elements a tensor of shape `s` holds: the product of
/// the dimensions, 1 for the empty shape.
pub open spec fn seq_product(s: Seq<usize>) -> int
    decreases s.len(),
{
    if s.len() == 0 {
        1
    } else {
        seq_product(s.drop_last()) * (s.last() as int)
    }
}

/// A shape with a zero dimension holds no elements.
pub proof fn lemma_seq_product_zero(s: Seq<usize>, i: int)
    requires
        0 <= i < s.len(),
        s[i] == 0,
    ensures
        seq_product(s) == 0,
    decreases s.len(),
{
    if i == s.len() - 1 {
        assert(s.last() == 0);
    } else {
        lemma_seq_product_zero(s.drop_last(), i);
    }
}

/// A shape of positive dimensions holds at least one element.
pub proof fn lemma_seq_product_pos(s: Seq<usize>)
    requires
        forall|j: int| 0 <= j < s.len() ==> s[j] >= 1,
    ensures
        seq_product(s) >= 1,
    decreases s.len(),
{
    if s.len() > 0 {
        lemma_seq_product_pos(s.drop_last());
        let p = seq_product(s.drop_last());
        let l = s.last() as int;
        assert(p * l >= 1) by (nonlinear_arith)
            requires
                p >= 1,
                l >= 1,
        ;
    }
}

/// Extending a prefix of the shape by one dimension multiplies its
/// element count by that dimension.
pub proof fn lemma_seq_product_take_step(s: Seq<usize>, k: int)
    requires
        0 <= k < s.len(),
    ensures
        seq_product(s.take(k + 1)) == seq_product(s.take(k)) * (s[k] as int),
{
    assert(s.take(k + 1).drop_last() =~= s.take(k));
    assert(s.take(k + 1).last() == s[k]);
}

/// With positive dimensions, the whole shape holds at least as many
/// elements as any prefix of it.
pub proof fn lemma_seq_product_prefix(s: Seq<usize>, k: int)
    requires
        0 <= k <= s.len(),
        forall|j: int| 0 <= j < s.len() ==> s[j] >= 1,
    ensures
        seq_product(s) >= seq_product(s.take(k)),
    decreases s.len() - k,
{
    if k == s.len() {
        assert(s.take(k) =~= s);
    } else {
        lemma_seq_product_take_step(s, k);
        lemma_seq_product_prefix(s, k + 1);
        let p = seq_product(s.take(k));
        let l = s[k] as int;
        assert(forall|j: int| 0 <= j < s.take(k).len() ==> s.take(k)[j] >= 1);
        lemma_seq_product_pos(s.take(k));
        assert(p * l >= p) by (nonlinear_arith)
            requires
                p >= 1,
                l >= 1,
        ;
    }
}

/// The shapes the mask reconstructor accepts: rank 2 to 4, no empty
/// axis, and a trailing plane whose sides fit image dimensions.
pub open spec fn shape_ok(dims: Seq<usize>) -> bool {
    &&& 2 <= dims.len() <= 4
    &&& forall|j: int| 0 <= j < dims.len() ==> #[trigger] dims[j] >= 1
    &&& dims[dims.len() - 2] <= u32::MAX
    &&& dims[dims.len() - 1] <= u32::MAX
}

/// The engine's output, quantised: shape as reported, one byte per
/// element, row-major, holding `round(sigmoid(logit) * 255)`.
#[derive(Debug)]
pub struct ProbTensor {
    /// The shape, outermost axis first.
    pub dims: Vec<usize>,
    /// Row-major elements; length is the product of `dims`.
    pub data: Vec<u8>,
}

impl ProbTensor {
    /// The buffer length matches the shape.
    pub open spec fn wf(&self) -> bool {
        self.data@.len() == seq_product(self.dims@)
    }

    /// Height of the trailing plane.
    pub open spec fn plane_h(&self) -> int {
        self.dims@[self.dims@.len() - 2] as int
    }

    /// Width of the trailing plane.
    pub open spec fn plane_w(&self) -> int {
        self.dims@[self.dims@.len() - 1] as int
    }

    /// The `(H, W)` plane at index 0 of every leading axis: in row-major
    /// order, the first `H * W` elements.
    pub open spec fn plane(&self) -> Seq<u8> {
        self.data@.take(self.plane_h() * self.plane_w())
    }

    /// Wraps a shape and a buffer, refusing a buffer whose length does
    /// not match the shape.
    pub fn new(dims: Vec<usize>, data: Vec<u8>) -> (r: Option<ProbTensor>)
        ensures
            match r {
                Some(t) => t.wf() && t.dims@ == dims@ && t.data@ == data@,
                None => data@.len() != seq_product(dims@),
            },
    {
        let n = data.len();
        let ndims = dims.len();

        let mut i: usize = 0;
        while i < ndims
            invariant
                ndims == dims@.len(),
                n == data@.len(),
                i <= ndims,
                forall|j: int| 0 <= j < i ==> #[trigger] dims@[j] >= 1,
            decreases ndims - i,
        {
            if dims[i] == 0 {
                proof {
                    lemma_seq_product_zero(dims@, i as int);
                }
                if n == 0 {
                    return Some(ProbTensor { dims, data });
                } else {
                    return None;
                }
            }
            i = i + 1;
        }

        let mut p: usize = 1;
        let mut k: usize = 0;
        while k < ndims
            invariant
                ndims == dims@.len(),
                n == data@.len(),
                k <= ndims,
                forall|j: int| 0 <= j < ndims ==> #[trigger] dims@[j] >= 1,
                p == seq_product(dims@.take(k as int)),
                p >= 1,
            decreases ndims - k,
        {
            let d = dims[k];
            proof {
                lemma_seq_product_take_step(dims@, k as int);
            }
            let lim = usize::MAX / d;
            proof {
                lemma_fundamental_div_mod(usize::MAX as int, d as int);
            }
            let ghost q = usize::MAX as int / d as int;
            let ghost rm = usize::MAX as int % d as int;
            if p > lim {
                proof {
                    assert((p as int) * (d as int) > usize::MAX as int) by (nonlinear_arith)
                        requires
                            p as int >= q + 1,
                            usize::MAX as int == (d as int) * q + rm,
                            0 <= rm < d as int,
                            d as int >= 1,
                    ;
                    lemma_seq_product_prefix(dims@, k as int + 1);
                }
                return None;
            }
            proof {
                assert((p as int) * (d as int) <= usize::MAX as int) by (nonlinear_arith)
                    requires
                        0 <= p as int <= q,
                        usize::MAX as int == (d as int) * q + rm,
                        rm >= 0,
                        d as int >= 1,
                ;
                assert((p as int) * (d as int) >= 1) by (nonlinear_arith)
                    requires
                        p as int >= 1,
                        d as int >= 1,
                ;
            }
            p = p * d;
            k = k + 1;
        }
        proof {
            assert(dims@.take(ndims as int) =~= dims@);
        }
        if n == p {
            Some(ProbTensor { dims, data })
        } else {
            None
        }
    }

    /// Copies the trailing plane out of the buffer.
    pub fn extract_plane(&self) -> (r: Vec<u8>)
        requires
            self.wf(),
            shape_ok(self.dims@),
        ensures
            r@ == self.plane(),
            r@.len() == self.plane_h() * self.plane_w(),
    {
        proof {
            lemma_plane_fits(self.dims@);
            vstd::arithmetic::mul::lemma_mul_nonnegative(self.plane_h(), self.plane_w());
        }
        let n = self.data.len();
        let ndims = self.dims.len();
        let h = self.dims[ndims - 2];
        let w = self.dims[ndims - 1];
        proof {
            assert(self.plane_h() * self.plane_w() <= n);
        }
        let hw = h * w;
        let mut out: Vec<u8> = Vec::new();
        let mut i: usize = 0;
        while i < hw
            invariant
                self.wf(),
                hw == self.plane_h() * self.plane_w(),
                hw <= self.data@.len(),
                i <= hw,
                out@.len() == i,
                forall|j: int| 0 <= j < i ==> #[trigger] out@[j] == self.data@[j],
            decreases hw - i,
        {
            out.push(self.data[i]);
            i = i + 1;
        }
        proof {
            assert(out@ =~= self.plane());
        }
        out
    }
}

/// With an accepted shape, the trailing plane fits inside the buffer.
pub proof fn lemma_plane_fits(s: Seq<usize>)
    requires
        s.len() >= 2,
        forall|j: int| 0 <= j < s.len() ==> #[trigger] s[j] >= 1,
    ensures
        seq_product(s) >= (s[s.len() - 2] as int) * (s[s.len() - 1] as int),
{
    let s2 = s.drop_last();
    let h = s[s.len() - 2] as int;
    let w = s.last() as int;
    assert(s2.last() == s[s.len() - 2]);
    assert(seq_product(s) == seq_product(s2) * w);
    assert(seq_product(s2) == seq_product(s2.drop_last()) * h);
    assert(forall|j: int| 0 <= j < s2.drop_last().len()
        ==> #[trigger] s2.drop_last()[j] >= 1);
    lemma_seq_product_pos(s2.drop_last());
    let p = seq_product(s2.drop_last());
    assert((p * h) * w >= h * w) by (nonlinear_arith)
        requires
            p >= 1,
            h >= 1,
            w >= 1,
    ;
}

/// The preprocessed model input: the resized RGB image in channel-first
/// order, one byte per sample, before the caller's floating-point
/// normalisation. The batch axis of the engine's `(1, 3, H, W)` input is
/// implicit.
#[derive(Debug)]
pub struct InputTensor {
    pub width: u32,
    pub height: u32,
    /// Three planes of `width * height` bytes: all red samples, then all
    /// green, then all blue, each row-major.
    pub data: Vec<u8>,
}

impl InputTensor {
    /// Number of pixels per plane.
    pub open spec fn npix(&self) -> int {
        (self.width as int) * (self.height as int)
    }

    /// The buffer length matches the dimensions.
    pub open spec fn wf(&self) -> bool {
        self.data@.len() == 3 * self.npix()
    }
}

} // verus!
