use vstd::prelude::*;
use crate::scalar::{Scalar, ONE_BITS, ZERO_BITS};

verus! {

/// A colour: red, green, blue and alpha.
#[derive(Clone, Copy, Debug, PartialEq, Eq, Structural)]
pub struct Rgba {
    pub r: Scalar,
    pub g: Scalar,
    pub b: Scalar,
    pub a: Scalar,
}

impl Rgba {
    /// Black without alpha: every channel zero.
    pub open spec fn spec_zero() -> Rgba {
        Self::spec_splat(Scalar { bits: ZERO_BITS })
    }

    /// White: every channel one.
    pub open spec fn spec_one() -> Rgba {
        Self::spec_splat(Scalar { bits: ONE_BITS })
    }

    /// Magenta, the colour that stands in for what a handle fails to
    /// resolve: red, blue and alpha one, green zero.
    pub open spec fn spec_missing() -> Rgba {
        Rgba {
            r: Scalar { bits: ONE_BITS },
            g: Scalar { bits: ZERO_BITS },
            b: Scalar { bits: ONE_BITS },
            a: Scalar { bits: ONE_BITS },
        }
    }

    pub open spec fn spec_splat(v: Scalar) -> Rgba {
        Rgba { r: v, g: v, b: v, a: v }
    }

    pub fn new(r: Scalar, g: Scalar, b: Scalar, a: Scalar) -> (c: Rgba)
        ensures
            c == (Rgba { r, g, b, a }),
    {
        Rgba { r, g, b, a }
    }

    pub fn from_rgba(rgba: Rgba) -> (c: Rgba)
        ensures
            c == rgba,
    {
        rgba
    }

    pub fn to_rgba(&self) -> (c: Rgba)
        ensures
            c == *self,
    {
        *self
    }

    #[verifier::when_used_as_spec(spec_splat)]
    pub fn splat(v: Scalar) -> (c: Rgba)
        ensures
            c == Self::spec_splat(v),
    {
        Rgba { r: v, g: v, b: v, a: v }
    }

    #[verifier::when_used_as_spec(spec_zero)]
    pub fn zero() -> (c: Rgba)
        ensures
            c == Self::spec_zero(),
    {
        Self::splat(Scalar { bits: ZERO_BITS })
    }

    #[verifier::when_used_as_spec(spec_one)]
    pub fn one() -> (c: Rgba)
        ensures
            c == Self::spec_one(),
    {
        Self::splat(Scalar { bits: ONE_BITS })
    }

    #[verifier::when_used_as_spec(spec_missing)]
    pub fn missing() -> (c: Rgba)
        ensures
            c == Self::spec_missing(),
    {
        Rgba {
            r: Scalar { bits: ONE_BITS },
            g: Scalar { bits: ZERO_BITS },
            b: Scalar { bits: ONE_BITS },
            a: Scalar { bits: ONE_BITS },
        }
    }

    /// The patterns of the four channels.
    pub fn to_array(&self) -> (w: [u32; 4])
        ensures
            w[0] == self.r.bits,
            w[1] == self.g.bits,
            w[2] == self.b.bits,
            w[3] == self.a.bits,
    {
        [self.r.bits, self.g.bits, self.b.bits, self.a.bits]
    }
}

/// One of the four bytes of a word, the least significant being byte 0.
pub open spec fn word_byte(word: u32, j: int) -> u8 {
    if j == 0 {
        (word & 0xff) as u8
    } else if j == 1 {
        ((word >> 8) & 0xff) as u8
    } else if j == 2 {
        ((word >> 16) & 0xff) as u8
    } else {
        ((word >> 24) & 0xff) as u8
    }
}

/// A picture: rows of pixels from the top, each pixel four channels, each
/// channel the pattern of a single-precision number.
#[derive(Debug, Clone)]
pub struct Image {
    pub width: usize,
    pub height: usize,
    pub data: Vec<u32>,
}

impl Image {
    /// The buffer has four words for each pixel.
    pub open spec fn well_formed(&self) -> bool {
        self.data@.len() == self.width * self.height * 4
    }

    /// Where the red channel of the pixel in column `x` of row `y` lies.
    pub open spec fn offset(&self, x: usize, y: usize) -> int {
        self.width * y * 4 + x * 4
    }

    /// The pixel in column `x` of row `y`.
    pub open spec fn pixel(&self, x: usize, y: usize) -> Rgba {
        Rgba {
            r: Scalar { bits: self.data@[self.offset(x, y)] },
            g: Scalar { bits: self.data@[self.offset(x, y) + 1] },
            b: Scalar { bits: self.data@[self.offset(x, y) + 2] },
            a: Scalar { bits: self.data@[self.offset(x, y) + 3] },
        }
    }

    /// The pixel with the given number, the pixels counted row by row.
    pub open spec fn texel(&self, q: int) -> Rgba {
        Rgba {
            r: Scalar { bits: self.data@[4 * q] },
            g: Scalar { bits: self.data@[4 * q + 1] },
            b: Scalar { bits: self.data@[4 * q + 2] },
            a: Scalar { bits: self.data@[4 * q + 3] },
        }
    }

    /// A pixel of a well-formed picture lies within the buffer, at four
    /// times its number.
    pub proof fn lemma_offset(&self, x: usize, y: usize)
        requires
            self.well_formed(),
            x < self.width,
            y < self.height,
        ensures
            0 <= self.offset(x, y),
            self.offset(x, y) + 4 <= self.data@.len(),
            self.offset(x, y) == 4 * (y * self.width + x),
            0 <= y * self.width + x < self.width * self.height,
            self.pixel(x, y) == self.texel(y * self.width + x),
    {
        assert(self.width * y * 4 + x * 4 == 4 * (y * self.width + x)) by (nonlinear_arith);
        assert(y * self.width + x + 1 <= self.width * self.height) by (nonlinear_arith)
            requires
                x < self.width,
                y < self.height,
        ;
        assert(self.width * self.height * 4 == 4 * (self.width * self.height))
            by (nonlinear_arith);
    }

    /// A picture of the given size, every channel zero.
    pub fn new(width: usize, height: usize) -> (image: Image)
        requires
            width * height * 4 <= usize::MAX,
        ensures
            image.width == width,
            image.height == height,
            image.well_formed(),
            forall|i: int| 0 <= i < image.data@.len() ==> image.data@[i] == 0,
    {
        assert(width * height <= width * height * 4) by (nonlinear_arith);
        let n: usize = width * height * 4;
        let mut data: Vec<u32> = Vec::with_capacity(n);
        let mut i: usize = 0;
        while i < n
            invariant
                0 <= i <= n,
                data@.len() == i,
                forall|k: int| 0 <= k < i ==> data@[k] == 0,
            decreases n - i,
        {
            data.push(0);
            i = i + 1;
        }
        Image { width, height, data }
    }

    /// A picture over a buffer that already holds its pixels.
    pub fn from_vec(width: usize, height: usize, data: Vec<u32>) -> (image: Image)
        requires
            data@.len() == width * height * 4,
        ensures
            image.width == width,
            image.height == height,
            image.data == data,
            image.well_formed(),
    {
        Image { width, height, data }
    }

    pub fn set_pixel_color(&mut self, x: usize, y: usize, color: Rgba)
        requires
            old(self).offset(x, y) + 4 <= old(self).data@.len(),
        ensures
            final(self).width == old(self).width,
            final(self).height == old(self).height,
            final(self).data@.len() == old(self).data@.len(),
            final(self).pixel(x, y) == color,
            forall|i: int|
                0 <= i < old(self).data@.len() && !(old(self).offset(x, y) <= i < old(self).offset(
                    x,
                    y,
                ) + 4) ==> final(self).data@[i] == old(self).data@[i],
    {
        let len: usize = self.data.len();
        assert(0 <= self.width * y <= self.width * y * 4 && 0 <= x * 4) by (nonlinear_arith);
        let index: usize = self.width * y * 4 + x * 4;
        self.data.set(index, color.r.bits);
        self.data.set(index + 1, color.g.bits);
        self.data.set(index + 2, color.b.bits);
        self.data.set(index + 3, color.a.bits);
    }

    pub fn get_pixel_color(&self, x: usize, y: usize) -> (color: Rgba)
        requires
            self.offset(x, y) + 4 <= self.data@.len(),
        ensures
            color == self.pixel(x, y),
    {
        let len: usize = self.data.len();
        assert(0 <= self.width * y <= self.width * y * 4 && 0 <= x * 4) by (nonlinear_arith);
        let index: usize = self.width * y * 4 + x * 4;
        Rgba {
            r: Scalar { bits: self.data[index] },
            g: Scalar { bits: self.data[index + 1] },
            b: Scalar { bits: self.data[index + 2] },
            a: Scalar { bits: self.data[index + 3] },
        }
    }

    /// The buffer as bytes, four for each channel, the least significant
    /// first.
    pub fn as_bytes(&self) -> (bytes: Vec<u8>)
        requires
            self.data@.len() * 4 <= usize::MAX,
        ensures
            bytes@.len() == self.data@.len() * 4,
            forall|i: int, j: int|
                0 <= i < self.data@.len() && 0 <= j < 4 ==> #[trigger] bytes@[4 * i + j]
                    == word_byte(self.data@[i], j),
    {
        let n: usize = self.data.len();
        let mut bytes: Vec<u8> = Vec::with_capacity(n * 4);
        let mut i: usize = 0;
        while i < n
            invariant
                0 <= i <= n,
                n == self.data@.len(),
                bytes@.len() == 4 * i,
                forall|k: int, j: int|
                    0 <= k < i && 0 <= j < 4 ==> #[trigger] bytes@[4 * k + j] == word_byte(
                        self.data@[k],
                        j,
                    ),
            decreases n - i,
        {
            let word: u32 = self.data[i];
            bytes.push((word & 0xff) as u8);
            bytes.push(((word >> 8) & 0xff) as u8);
            bytes.push(((word >> 16) & 0xff) as u8);
            bytes.push(((word >> 24) & 0xff) as u8);
            i = i + 1;
        }
        bytes
    }
}

} // verus!
