//! Owned RGBA pixel buffer with bounds-checked, alpha-premultiplied writes.
//!
//! The internal format is 4 bytes per pixel in RGBA order. The buffer is
//! reused across frames: [`Canvas::resize`] grows the backing storage only
//! when it is too small and never shrinks it, so the logical region is the
//! first `width * height * 4` bytes.

use vstd::prelude::*;

use crate::fixed::MILLI_ONE;

verus! {

/// Owned RGBA pixel buffer.
pub struct Canvas {
    pub data: Vec<u8>,
    pub width: usize,
    pub height: usize,
}

/// A color channel premultiplied by a milli-unit opacity, rounded down.
pub open spec fn spec_premul(c: u8, opacity: u32) -> u8 {
    ((c as int) * (opacity as int) / (MILLI_ONE as int)) as u8
}

/// The alpha byte for a milli-unit opacity: `opacity * 255 / 1000`.
pub open spec fn spec_alpha(opacity: u32) -> u8 {
    ((opacity as int) * 255 / (MILLI_ONE as int)) as u8
}

/// Premultiply one channel by a milli-unit opacity.
pub fn premul(c: u8, opacity: u32) -> (r: u8)
    requires
        opacity <= MILLI_ONE,
    ensures
        r == spec_premul(c, opacity),
{
    proof {
        assert((c as int) * (opacity as int) <= 255 * 1000 && (c as int) * (opacity as int) >= 0)
            by (nonlinear_arith)
            requires
                0 <= c <= 255 && 0 <= opacity <= 1000,
        ;
    }
    ((c as u32 * opacity) / MILLI_ONE) as u8
}

proof fn lemma_pixel_index_bound(x: int, y: int, w: int, h: int)
    by (nonlinear_arith)
    requires
        0 <= x < w,
        0 <= y < h,
    ensures
        0 <= (y * w + x) * 4,
        (y * w + x) * 4 + 3 < w * h * 4,
{
}

impl Canvas {
    /// The backing buffer covers the logical `width * height * 4` region.
    pub open spec fn inv(&self) -> bool {
        &&& self.data.len() >= self.width * self.height * 4
        &&& self.width * self.height * 4 <= usize::MAX
    }

    /// Index of the first byte of the pixel at `(x, y)`.
    pub open spec fn spec_index(&self, x: int, y: int) -> int {
        (y * self.width + x) * 4
    }

    /// Create a canvas of the given size, fully transparent black.
    pub fn new(width: usize, height: usize) -> (c: Canvas)
        requires
            width * height * 4 <= usize::MAX,
        ensures
            c.inv(),
            c.width == width,
            c.height == height,
            c.data.len() == width * height * 4,
            forall|i: int| 0 <= i < c.data.len() ==> c.data@[i] == 0u8,
    {
        proof {
            assert(width * height <= usize::MAX && width * height * 4 == (width * height) * 4)
                by (nonlinear_arith)
                requires
                    width * height * 4 <= usize::MAX && width >= 0 && height >= 0,
            ;
        }
        let n: usize = width * height * 4;
        let data: Vec<u8> = vec![0u8; n];
        Canvas { data, width, height }
    }

    /// Update the logical dimensions, growing the backing storage only when
    /// it is too small (new bytes are zero); the buffer never shrinks.
    pub fn resize(&mut self, width: usize, height: usize)
        requires
            width * height * 4 <= usize::MAX,
        ensures
            final(self).inv(),
            final(self).width == width,
            final(self).height == height,
            final(self).data.len() == if old(self).data.len() >= width * height * 4 {
                old(self).data.len() as int
            } else {
                width * height * 4
            },
            final(self).data@.subrange(0, old(self).data.len() as int) == old(self).data@,
            forall|i: int|
                old(self).data.len() <= i < final(self).data.len() ==> final(self).data@[i] == 0u8,
    {
        proof {
            assert(width * height <= usize::MAX && width * height * 4 == (width * height) * 4)
                by (nonlinear_arith)
                requires
                    width * height * 4 <= usize::MAX && width >= 0 && height >= 0,
            ;
        }
        self.width = width;
        self.height = height;
        let needed: usize = width * height * 4;
        if self.data.len() < needed {
            self.data.resize(needed, 0u8);
        }
        proof {
            assert(final(self).data@.subrange(0, old(self).data.len() as int) =~= old(self).data@);
        }
    }

    /// Zero the logical region (fully transparent black); bytes past it,
    /// left over from a larger earlier size, are untouched.
    pub fn clear(&mut self)
        requires
            old(self).inv(),
        ensures
            final(self).inv(),
            final(self).width == old(self).width,
            final(self).height == old(self).height,
            final(self).data.len() == old(self).data.len(),
            forall|i: int|
                0 <= i < final(self).width * final(self).height * 4 ==> final(self).data@[i]
                    == 0u8,
            forall|i: int|
                final(self).width * final(self).height * 4 <= i < final(self).data.len()
                    ==> final(self).data@[i] == old(self).data@[i],
    {
        proof {
            assert(self.width * self.height <= usize::MAX && self.width * self.height * 4 == (
            self.width * self.height) * 4)
                by (nonlinear_arith)
                requires
                    self.width * self.height * 4 <= usize::MAX && self.width >= 0 && self.height
                        >= 0,
            ;
        }
        let len: usize = self.width * self.height * 4;
        let mut i: usize = 0;
        while i < len
            invariant
                i <= len,
                len == self.width * self.height * 4,
                self.width == old(self).width,
                self.height == old(self).height,
                self.data.len() == old(self).data.len(),
                self.data.len() >= len,
                forall|j: int| 0 <= j < i ==> self.data@[j] == 0u8,
                forall|j: int| i <= j < self.data.len() ==> self.data@[j] == old(self).data@[j],
            decreases len - i,
        {
            self.data.set(i, 0u8);
            i += 1;
        }
    }

    /// Write the pixel at `(x, y)` with the given color, premultiplied by a
    /// milli-unit opacity. Out-of-range coordinates are silently dropped.
    pub fn put_pixel(&mut self, x: usize, y: usize, r: u8, g: u8, b: u8, opacity: u32)
        requires
            old(self).inv(),
            opacity <= MILLI_ONE,
        ensures
            final(self).inv(),
            final(self).width == old(self).width,
            final(self).height == old(self).height,
            final(self).data.len() == old(self).data.len(),
            x < old(self).width && y < old(self).height ==> final(self).data@ == old(
                self,
            ).data@.update(old(self).spec_index(x as int, y as int), spec_premul(r, opacity)).update(
                old(self).spec_index(x as int, y as int) + 1,
                spec_premul(g, opacity),
            ).update(old(self).spec_index(x as int, y as int) + 2, spec_premul(b, opacity)).update(
                old(self).spec_index(x as int, y as int) + 3,
                spec_alpha(opacity),
            ),
            !(x < old(self).width && y < old(self).height) ==> final(self).data@ == old(
                self,
            ).data@,
    {
        if x < self.width && y < self.height {
            proof {
                lemma_pixel_index_bound(x as int, y as int, self.width as int, self.height as int);
            }
            let idx: usize = (y * self.width + x) * 4;
            let a: u8 = ((opacity * 255) / MILLI_ONE) as u8;
            assert(a == spec_alpha(opacity));
            self.data.set(idx, premul(r, opacity));
            self.data.set(idx + 1, premul(g, opacity));
            self.data.set(idx + 2, premul(b, opacity));
            self.data.set(idx + 3, a);
        }
    }

    /// Write the pixel at `(x, y)` with the color premultiplied by
    /// `opacity`, but with the alpha byte taken from a separate milli-unit
    /// `alpha` — for translucent fills whose color is not dimmed as far as
    /// their coverage. Out-of-range coordinates are silently dropped.
    pub fn put_pixel_with_alpha(
        &mut self,
        x: usize,
        y: usize,
        r: u8,
        g: u8,
        b: u8,
        opacity: u32,
        alpha: u32,
    )
        requires
            old(self).inv(),
            opacity <= MILLI_ONE,
            alpha <= MILLI_ONE,
        ensures
            final(self).inv(),
            final(self).width == old(self).width,
            final(self).height == old(self).height,
            final(self).data.len() == old(self).data.len(),
            x < old(self).width && y < old(self).height ==> final(self).data@ == old(
                self,
            ).data@.update(old(self).spec_index(x as int, y as int), spec_premul(r, opacity)).update(
                old(self).spec_index(x as int, y as int) + 1,
                spec_premul(g, opacity),
            ).update(old(self).spec_index(x as int, y as int) + 2, spec_premul(b, opacity)).update(
                old(self).spec_index(x as int, y as int) + 3,
                spec_alpha(alpha),
            ),
            !(x < old(self).width && y < old(self).height) ==> final(self).data@ == old(
                self,
            ).data@,
    {
        if x < self.width && y < self.height {
            proof {
                lemma_pixel_index_bound(x as int, y as int, self.width as int, self.height as int);
            }
            let idx: usize = (y * self.width + x) * 4;
            let a: u8 = ((alpha * 255) / MILLI_ONE) as u8;
            assert(a == spec_alpha(alpha));
            self.data.set(idx, premul(r, opacity));
            self.data.set(idx + 1, premul(g, opacity));
            self.data.set(idx + 2, premul(b, opacity));
            self.data.set(idx + 3, a);
        }
    }

    /// Read the premultiplied RGBA bytes of the pixel at `(x, y)`;
    /// out-of-range coordinates read as fully transparent black.
    pub fn get_pixel(&self, x: usize, y: usize) -> (px: (u8, u8, u8, u8))
        requires
            self.inv(),
        ensures
            x < self.width && y < self.height ==> px == (
                self.data@[self.spec_index(x as int, y as int)],
                self.data@[self.spec_index(x as int, y as int) + 1],
                self.data@[self.spec_index(x as int, y as int) + 2],
                self.data@[self.spec_index(x as int, y as int) + 3],
            ),
            !(x < self.width && y < self.height) ==> px == (0u8, 0u8, 0u8, 0u8),
    {
        if x < self.width && y < self.height {
            proof {
                lemma_pixel_index_bound(x as int, y as int, self.width as int, self.height as int);
            }
            let idx: usize = (y * self.width + x) * 4;
            (self.data[idx], self.data[idx + 1], self.data[idx + 2], self.data[idx + 3])
        } else {
            (0u8, 0u8, 0u8, 0u8)
        }
    }

    /// Reorder the RGBA canvas into little-endian packed ARGB8888 (byte order
    /// B, G, R, A) and write it into `dest`, one pixel for one pixel; bytes of
    /// `dest` past the logical region are untouched.
    pub fn write_argb8888(&self, dest: &mut Vec<u8>)
        requires
            self.inv(),
            old(dest).len() >= self.width * self.height * 4,
        ensures
            final(dest).len() == old(dest).len(),
            forall|i: int|
                0 <= i < self.width * self.height ==> {
                    &&& #[trigger] final(dest)@[i * 4] == self.data@[i * 4 + 2]
                    &&& final(dest)@[i * 4 + 1] == self.data@[i * 4 + 1]
                    &&& final(dest)@[i * 4 + 2] == self.data@[i * 4]
                    &&& final(dest)@[i * 4 + 3] == self.data@[i * 4 + 3]
                },
            forall|j: int|
                self.width * self.height * 4 <= j < final(dest).len() ==> final(dest)@[j] == old(
                    dest,
                )@[j],
    {
        proof {
            assert(self.width * self.height <= usize::MAX && self.width * self.height * 4 == (
            self.width * self.height) * 4)
                by (nonlinear_arith)
                requires
                    self.width * self.height * 4 <= usize::MAX && self.width >= 0 && self.height
                        >= 0,
            ;
        }
        let pixel_count: usize = self.width * self.height;
        let mut i: usize = 0;
        while i < pixel_count
            invariant
                i <= pixel_count,
                pixel_count == self.width * self.height,
                pixel_count * 4 <= usize::MAX,
                self.inv(),
                dest.len() == old(dest).len(),
                dest.len() >= pixel_count * 4,
                forall|k: int|
                    0 <= k < i ==> {
                        &&& #[trigger] dest@[k * 4] == self.data@[k * 4 + 2]
                        &&& dest@[k * 4 + 1] == self.data@[k * 4 + 1]
                        &&& dest@[k * 4 + 2] == self.data@[k * 4]
                        &&& dest@[k * 4 + 3] == self.data@[k * 4 + 3]
                    },
                forall|j: int| i * 4 <= j < dest.len() ==> dest@[j] == old(dest)@[j],
            decreases pixel_count - i,
        {
            proof {
                assert(i * 4 + 3 < pixel_count * 4 && (i + 1) * 4 == i * 4 + 4)
                    by (nonlinear_arith)
                    requires
                        0 <= i < pixel_count,
                ;
            }
            let si: usize = i * 4;
            let r = self.data[si];
            let g = self.data[si + 1];
            let b = self.data[si + 2];
            let a = self.data[si + 3];
            dest.set(si, b);
            dest.set(si + 1, g);
            dest.set(si + 2, r);
            dest.set(si + 3, a);
            i += 1;
        }
    }
}

} // verus!
