//! Device buffers of `i32` elements, and what the multiply kernel computes
//! for one element and for a whole buffer.

use vstd::prelude::*;
use crate::error::PipelineError;

verus! {

/// The integer of the 32-bit two's-complement range that differs from `x` by
/// a multiple of 2^32.
pub open spec fn wrap32(x: int) -> int {
    let r = x % 0x1_0000_0000;
    if r >= 0x8000_0000 {
        r - 0x1_0000_0000
    } else {
        r
    }
}

/// What the multiply kernel stores for one element: the product of the
/// element and the coefficient, wrapped to the width of the element type.
pub open spec fn product(x: i32, coeff: i32) -> i32 {
    wrap32(x * coeff) as i32
}

/// The elementwise scaled copy of `source`.
pub open spec fn scaled(source: Seq<i32>, coeff: i32) -> Seq<i32> {
    Seq::new(source.len(), |i: int| product(source[i], coeff))
}

/// `base` with the elements from index `start` on replaced by `data`.
/// Elements of `data` that would land past the end of `base` are dropped.
pub open spec fn overwrite(base: Seq<i32>, start: int, data: Seq<i32>) -> Seq<i32> {
    Seq::new(
        base.len(),
        |i: int|
            if start <= i < start + data.len() {
                data[i - start]
            } else {
                base[i]
            },
    )
}

/// A buffer of `len` zeros.
pub open spec fn zeros(len: nat) -> Seq<i32> {
    Seq::new(len, |i: int| 0i32)
}

/// Multiplies one element by the coefficient as the device does, with
/// wraparound at the width of `i32`.
pub fn multiply_element(x: i32, coeff: i32) -> (r: i32)
    ensures
        r == product(x, coeff),
{
    x.wrapping_mul(coeff)
}

/// The wrapped product is the true product whenever that fits the element type.
pub proof fn lemma_product_exact(x: i32, coeff: i32)
    requires
        i32::MIN <= x * coeff <= i32::MAX,
    ensures
        product(x, coeff) == x * coeff,
{
}

/// The wrapped product differs from the true product by a multiple of 2^32.
pub proof fn lemma_product_congruent(x: i32, coeff: i32)
    ensures
        (product(x, coeff) - x * coeff) % 0x1_0000_0000 == 0,
{
}

/// A zero coefficient gives zero, and the coefficient one gives the element back.
pub proof fn lemma_product_units(x: i32)
    ensures
        product(x, 0) == 0,
        product(x, 1) == x,
{
    assert(x * 0 == 0) by (nonlinear_arith);
    assert(x * 1 == x) by (nonlinear_arith);
}

/// Replaces the elements of `dst` from `start` on by those of `src`.
pub(crate) fn store_at(dst: &mut Vec<i32>, start: usize, src: &[i32])
    requires
        start + src@.len() <= old(dst)@.len(),
    ensures
        final(dst)@ == overwrite(old(dst)@, start as int, src@),
{
    let n: usize = src.len();
    let total: usize = dst.len();
    let mut i: usize = 0;
    while i < n
        invariant
            i <= n,
            n == src@.len(),
            total == dst@.len(),
            start + n <= total,
            dst@ == overwrite(old(dst)@, start as int, src@.subrange(0, i as int)),
        decreases n - i,
    {
        dst.set(start + i, src[i]);
        i = i + 1;
    }
    assert(src@.subrange(0, n as int) == src@);
}

/// A vector that holds the `len` elements of `src` from `start` on.
pub(crate) fn copy_range(src: &Vec<i32>, start: usize, len: usize) -> (v: Vec<i32>)
    requires
        start + len <= src@.len(),
    ensures
        v@ == src@.subrange(start as int, start + len),
{
    let mut v: Vec<i32> = Vec::new();
    let total: usize = src.len();
    let mut i: usize = 0;
    while i < len
        invariant
            i <= len,
            total == src@.len(),
            start + len <= total,
            v@ == src@.subrange(start as int, start + i),
        decreases len - i,
    {
        v.push(src[start + i]);
        i = i + 1;
    }
    v
}

/// How kernels may use a buffer.
#[derive(Clone, Copy, Debug, PartialEq, Eq, Structural)]
pub enum MemAccess {
    /// Kernels read and write the buffer.
    ReadWrite,
    /// Kernels only read the buffer.
    ReadOnly,
    /// Kernels only write the buffer.
    WriteOnly,
}

/// A fixed-length array of `i32` elements that stands for memory on the
/// compute device. Its view is the sequence of its elements.
#[derive(Debug)]
pub struct DeviceBuffer {
    data: Vec<i32>,
    access: MemAccess,
}

impl View for DeviceBuffer {
    type V = Seq<i32>;

    closed spec fn view(&self) -> Seq<i32> {
        self.data@
    }
}

impl DeviceBuffer {
    /// How kernels may use the buffer.
    pub closed spec fn access_flags(&self) -> MemAccess {
        self.access
    }

    /// How kernels may use the buffer.
    pub fn access(&self) -> (a: MemAccess)
        ensures
            a == self.access_flags(),
    {
        self.access
    }

    /// A buffer of `len` elements, all zero, that kernels read and write.
    pub(crate) fn zeroed(len: usize) -> (b: DeviceBuffer)
        ensures
            b@ == zeros(len as nat),
            b.access_flags() == MemAccess::ReadWrite,
    {
        let mut data: Vec<i32> = Vec::new();
        let mut i: usize = 0;
        while i < len
            invariant
                i <= len,
                data@ == zeros(i as nat),
            decreases len - i,
        {
            data.push(0);
            i = i + 1;
        }
        DeviceBuffer { data, access: MemAccess::ReadWrite }
    }

    /// A buffer that holds a copy of `src` and that kernels read and write.
    pub(crate) fn from_slice(src: &[i32]) -> (b: DeviceBuffer)
        ensures
            b@ == src@,
            b.access_flags() == MemAccess::ReadWrite,
    {
        let mut data: Vec<i32> = Vec::new();
        let mut i: usize = 0;
        while i < src.len()
            invariant
                i <= src@.len(),
                data@ == src@.subrange(0, i as int),
            decreases src@.len() - i,
        {
            data.push(src[i]);
            i = i + 1;
        }
        DeviceBuffer { data, access: MemAccess::ReadWrite }
    }

    /// The number of elements.
    pub fn len(&self) -> (n: usize)
        ensures
            n == self@.len(),
    {
        self.data.len()
    }

    /// The element at `index`, if the buffer has one there.
    pub fn get(&self, index: usize) -> (r: Option<i32>)
        ensures
            r == if index < self@.len() {
                Some(self@[index as int])
            } else {
                None
            },
    {
        if index < self.data.len() {
            Some(self.data[index])
        } else {
            None
        }
    }

    /// Copies the whole buffer into `dest`, which must have the buffer's
    /// length; any other length is refused with `LengthMismatch` and `dest`
    /// keeps its contents.
    pub fn read(&self, dest: &mut Vec<i32>) -> (r: Result<(), PipelineError>)
        ensures
            old(dest)@.len() == self@.len() ==> r is Ok && final(dest)@ == self@,
            old(dest)@.len() != self@.len() ==> r == Err::<(), PipelineError>(
                PipelineError::LengthMismatch,
            ) && final(dest)@ == old(dest)@,
    {
        let n: usize = self.data.len();
        if dest.len() != n {
            return Err(PipelineError::LengthMismatch);
        }
        let mut i: usize = 0;
        while i < n
            invariant
                i <= n,
                n == self.data@.len(),
                dest@.len() == n,
                forall|j: int| 0 <= j < i ==> dest@[j] == self.data@[j],
            decreases n - i,
        {
            dest.set(i, self.data[i]);
            i = i + 1;
        }
        Ok(())
    }

    /// Replaces the elements from `start` on by those of `src`.
    pub(crate) fn store(&mut self, start: usize, src: &[i32])
        requires
            start + src@.len() <= old(self)@.len(),
        ensures
            final(self)@ == overwrite(old(self)@, start as int, src@),
            final(self).access_flags() == old(self).access_flags(),
    {
        store_at(&mut self.data, start, src);
    }

    /// Fills the buffer with the elementwise scaled copy of `source`.
    pub(crate) fn fill_scaled(&mut self, source: &DeviceBuffer, coeff: i32)
        requires
            old(self)@.len() == source@.len(),
        ensures
            final(self)@ == scaled(source@, coeff),
            final(self).access_flags() == old(self).access_flags(),
    {
        let n: usize = source.data.len();
        let mut i: usize = 0;
        while i < n
            invariant
                i <= n,
                n == source.data@.len(),
                self.data@.len() == n,
                self.access == old(self).access,
                forall|j: int| 0 <= j < i ==> self.data@[j] == product(source.data@[j], coeff),
            decreases n - i,
        {
            self.data.set(i, multiply_element(source.data[i], coeff));
            i = i + 1;
        }
    }
}

} // verus!
