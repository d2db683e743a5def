//! The working image: a width × height grid of 8-bit samples, three
//! channels per pixel for RGB or one for grayscale/binary.

use vstd::prelude::*;

verus! {

/// A decoded image. `data` stores rows top to bottom, pixels left to
/// right inside a row, channels in order inside a pixel.
pub struct PixelBuffer {
    pub width: usize,
    pub height: usize,
    pub channels: usize,
    pub data: Vec<u8>,
}

impl PixelBuffer {
    /// Either an RGB or a single-channel grid, with exactly one sample
    /// slot per pixel channel.
    pub open spec fn wf(&self) -> bool {
        &&& (self.channels == 1 || self.channels == 3)
        &&& self.data.len() == self.width * self.height * self.channels
    }

    /// Index of channel `c` of the pixel at `(x, y)` inside `data`.
    pub open spec fn spec_idx(width: int, channels: int, x: int, y: int, c: int) -> int {
        (y * width + x) * channels + c
    }

    /// Value of channel `c` of the pixel at `(x, y)`.
    pub open spec fn at(&self, x: int, y: int, c: int) -> u8 {
        self.data@[Self::spec_idx(self.width as int, self.channels as int, x, y, c)]
    }

    pub fn new_filled(width: usize, height: usize, channels: usize, value: u8) -> (r: Self)
        requires
            channels == 1 || channels == 3,
            width * height * channels <= usize::MAX,
        ensures
            r.wf(),
            r.width == width,
            r.height == height,
            r.channels == channels,
            r.data@ == Seq::<u8>::new((width * height * channels) as nat, |i: int| value),
    {
        proof {
            lemma_grid_mul_bounds(width as int, height as int, channels as int);
        }
        let n: usize = width * height * channels;
        let mut data: Vec<u8> = Vec::new();
        let mut i: usize = 0;
        while i < n
            invariant
                i <= n,
                data@ =~= Seq::<u8>::new(i as nat, |j: int| value),
            decreases n - i,
        {
            data.push(value);
            i = i + 1;
        }
        PixelBuffer { width, height, channels, data }
    }

    pub fn get(&self, x: usize, y: usize, c: usize) -> (r: u8)
        requires
            self.wf(),
            x < self.width,
            y < self.height,
            c < self.channels,
        ensures
            r == self.at(x as int, y as int, c as int),
    {
        proof {
            lemma_idx_in_bounds(
                self.width as int,
                self.height as int,
                self.channels as int,
                x as int,
                y as int,
                c as int,
            );
        }
        let idx: usize = (y * self.width + x) * self.channels + c;
        self.data[idx]
    }

    pub fn set(&mut self, x: usize, y: usize, c: usize, v: u8)
        requires
            old(self).wf(),
            x < old(self).width,
            y < old(self).height,
            c < old(self).channels,
        ensures
            final(self).wf(),
            final(self).width == old(self).width,
            final(self).height == old(self).height,
            final(self).channels == old(self).channels,
            final(self).data@ == old(self).data@.update(
                Self::spec_idx(
                    old(self).width as int,
                    old(self).channels as int,
                    x as int,
                    y as int,
                    c as int,
                ),
                v,
            ),
    {
        proof {
            lemma_idx_in_bounds(
                self.width as int,
                self.height as int,
                self.channels as int,
                x as int,
                y as int,
                c as int,
            );
        }
        let idx: usize = (y * self.width + x) * self.channels + c;
        self.data[idx] = v;
    }
}

/// The flat index of an in-range coordinate lies inside the grid's
/// sample count.
pub proof fn lemma_idx_in_bounds(width: int, height: int, channels: int, x: int, y: int, c: int)
    requires
        0 <= x < width,
        0 <= y < height,
        0 <= c < channels,
    ensures
        0 <= y * width,
        y * width + x < width * height,
        0 <= (y * width + x) * channels,
        (y * width + x) * channels + c < width * height * channels,
        width * height <= width * height * channels,
        (y * width + x) * channels + c
            == PixelBuffer::spec_idx(width, channels, x, y, c),
{
    assert(0 <= y * width
        && y * width + x < width * height
        && 0 <= (y * width + x) * channels
        && (y * width + x) * channels + c < width * height * channels
        && width * height <= width * height * channels) by (nonlinear_arith)
        requires
            0 <= x < width,
            0 <= y < height,
            0 <= c < channels,
    ;
}

/// Partial products of the grid dimensions fit below the full product.
pub proof fn lemma_grid_mul_bounds(width: int, height: int, channels: int)
    requires
        0 <= width,
        0 <= height,
        0 < channels,
    ensures
        width * height <= width * height * channels,
        width <= width * height * channels || height == 0,
{
    assert(width * height <= width * height * channels
        && (width <= width * height * channels || height == 0)) by (nonlinear_arith)
        requires
            0 <= width,
            0 <= height,
            0 < channels,
    ;
}

} // verus!
