use vstd::prelude::*;
use vstd::arithmetic::div_mod::lemma_fundamental_div_mod_converse;

verus! {

/// One cell of the sensor grid: its fixed `(i, j)` coordinate and the
/// radiance accumulator that the renderer writes into.
pub struct Pixel<C> {
    pub position: (usize, usize),
    pub color: C,
}

/// A `width × height` grid of pixels, stored row-major: pixel `(i, j)`
/// lives at offset `j * width + i`.
///
/// The grid is generic over the accumulator `C`, which the renderer
/// instantiates with its color type.
pub struct Sensor<C> {
    pixels: Vec<Pixel<C>>,
    width: usize,
    height: usize,
}

/// Offset of pixel `(i, j)` in a row-major grid of the given width.
pub open spec fn offset(width: int, i: int, j: int) -> int {
    j * width + i
}

/// Coordinate of the pixel stored at offset `k` of a row-major grid.
pub open spec fn coordinate(width: int, k: int) -> (usize, usize) {
    ((k % width) as usize, (k / width) as usize)
}

/// Within a row-major grid, offsets and coordinates correspond one to one.
pub proof fn lemma_offset_coordinate(width: int, height: int, i: int, j: int)
    requires
        0 <= i < width,
        0 <= j < height,
    ensures
        0 <= offset(width, i, j) < width * height,
        coordinate(width, offset(width, i, j)) == (i as usize, j as usize),
{
    lemma_fundamental_div_mod_converse(offset(width, i, j), width, j, i);
    assert(0 <= offset(width, i, j) < width * height) by (nonlinear_arith)
        requires
            0 <= i < width,
            0 <= j < height,
            offset(width, i, j) == j * width + i,
    ;
}

/// Off the grid there is no pixel; on it, the pixel found at `(i, j)` is
/// the one whose coordinate is `(i, j)`.
pub proof fn lemma_inside_iff_present<C>(sensor: &Sensor<C>, i: int, j: int)
    requires
        sensor.wf(),
    ensures
        sensor.spec_inside(i, j) <==> sensor.spec_get(i, j).is_some(),
        sensor.spec_inside(i, j) ==> sensor.spec_get(i, j).unwrap().position == (i as usize, j as usize),
{
    if sensor.spec_inside(i, j) {
        lemma_offset_coordinate(sensor.spec_width() as int, sensor.spec_height() as int, i, j);
    }
}

impl<C> Sensor<C> {
    pub closed spec fn spec_width(&self) -> nat {
        self.width as nat
    }

    pub closed spec fn spec_height(&self) -> nat {
        self.height as nat
    }

    /// The pixels in storage order.
    pub closed spec fn spec_pixels(&self) -> Seq<Pixel<C>> {
        self.pixels@
    }

    /// The storage holds exactly one pixel per grid cell, in row-major order,
    /// each carrying its own coordinate.
    pub open spec fn wf(&self) -> bool {
        &&& self.spec_pixels().len() == self.spec_width() * self.spec_height()
        &&& forall|k: int|
            0 <= k < self.spec_pixels().len() ==> #[trigger] self.spec_pixels()[k].position
                == coordinate(self.spec_width() as int, k)
    }

    pub open spec fn spec_inside(&self, i: int, j: int) -> bool {
        0 <= i < self.spec_width() && 0 <= j < self.spec_height()
    }

    /// The pixel at `(i, j)`, if that coordinate lies on the grid.
    pub open spec fn spec_get(&self, i: int, j: int) -> Option<Pixel<C>> {
        if self.spec_inside(i, j) {
            Some(self.spec_pixels()[offset(self.spec_width() as int, i, j)])
        } else {
            None
        }
    }

    /// A grid of `width × height` pixels, every accumulator holding `color`.
    pub fn constant(color: C, width: usize, height: usize) -> (r: Sensor<C>)
        where
            C: Copy,
        requires
            width * height <= usize::MAX,
        ensures
            r.wf(),
            r.spec_width() == width,
            r.spec_height() == height,
            forall|k: int| 0 <= k < r.spec_pixels().len() ==> #[trigger] r.spec_pixels()[k].color == color,
    {
        let mut pixels: Vec<Pixel<C>> = Vec::new();
        let mut j: usize = 0;
        while j < height
            invariant
                j <= height,
                width * height <= usize::MAX,
                pixels@.len() == j * width,
                forall|k: int| 0 <= k < pixels@.len() ==> #[trigger] pixels@[k].position == coordinate(width as int, k),
                forall|k: int| 0 <= k < pixels@.len() ==> #[trigger] pixels@[k].color == color,
            decreases height - j,
        {
            let mut i: usize = 0;
            while i < width
                invariant
                    i <= width,
                    j < height,
                    width * height <= usize::MAX,
                    pixels@.len() == j * width + i,
                    forall|k: int| 0 <= k < pixels@.len() ==> #[trigger] pixels@[k].position == coordinate(width as int, k),
                    forall|k: int| 0 <= k < pixels@.len() ==> #[trigger] pixels@[k].color == color,
                decreases width - i,
            {
                proof {
                    lemma_offset_coordinate(width as int, height as int, i as int, j as int);
                }
                pixels.push(Pixel { position: (i, j), color });
                i = i + 1;
            }
            assert(pixels@.len() == (j + 1) * width) by (nonlinear_arith)
                requires pixels@.len() == j * width + width;
            j = j + 1;
        }
        assert(pixels@.len() == width * height) by (nonlinear_arith)
            requires pixels@.len() == height * width;
        Sensor { pixels, width, height }
    }

    pub fn width(&self) -> (r: usize)
        ensures
            r == self.spec_width(),
    {
        self.width
    }

    pub fn height(&self) -> (r: usize)
        ensures
            r == self.spec_height(),
    {
        self.height
    }

    /// The pixels in storage order (row-major).
    pub fn pixels(&self) -> (r: &Vec<Pixel<C>>)
        ensures
            r@ == self.spec_pixels(),
    {
        &self.pixels
    }

    /// Whether `(i, j)` is a coordinate of the grid.
    pub fn inside(&self, i: usize, j: usize) -> (r: bool)
        ensures
            r == self.spec_inside(i as int, j as int),
    {
        i < self.width && j < self.height
    }

    /// The pixel at `(i, j)`, or `None` off the grid.
    pub fn get(&self, i: usize, j: usize) -> (r: Option<&Pixel<C>>)
        requires
            self.wf(),
        ensures
            r.is_some() == self.spec_get(i as int, j as int).is_some(),
            r.is_some() ==> *r.unwrap() == self.spec_get(i as int, j as int).unwrap(),
    {
        if !self.inside(i, j) {
            return None;
        }
        proof {
            lemma_offset_coordinate(self.width as int, self.height as int, i as int, j as int);
            assert(self.pixels@.len() == self.pixels.len());
        }
        Some(&self.pixels[j * self.width + i])
    }

    /// The accumulator of the pixel at `(i, j)`, or `None` off the grid.
    ///
    /// Only the accumulator is handed out: a pixel's coordinate is fixed for
    /// the lifetime of the grid.
    pub fn get_mut(&mut self, i: usize, j: usize) -> (r: Option<&mut C>)
        requires
            old(self).wf(),
        ensures
            r.is_some() == old(self).spec_inside(i as int, j as int),
            final(self).wf(),
            r.is_none() ==> *final(self) == *old(self),
            r.is_some() ==> {
                let k = offset(old(self).spec_width() as int, i as int, j as int);
                &&& *r.unwrap() == old(self).spec_pixels()[k].color
                &&& final(self).spec_width() == old(self).spec_width()
                &&& final(self).spec_height() == old(self).spec_height()
                &&& final(self).spec_pixels() == old(self).spec_pixels().update(
                    k,
                    Pixel { position: old(self).spec_pixels()[k].position, color: *final(r.unwrap()) },
                )
            },
    {
        if !self.inside(i, j) {
            return None;
        }
        proof {
            lemma_offset_coordinate(self.width as int, self.height as int, i as int, j as int);
            assert(self.pixels@.len() == self.pixels.len());
        }
        let k = j * self.width + i;
        Some(&mut self.pixels[k].color)
    }

    /// Resets every accumulator to `blank`, keeping the grid's shape.
    pub fn clear(&mut self, blank: C)
        where
            C: Copy,
        requires
            old(self).wf(),
        ensures
            final(self).wf(),
            final(self).spec_width() == old(self).spec_width(),
            final(self).spec_height() == old(self).spec_height(),
            final(self).spec_pixels().len() == old(self).spec_pixels().len(),
            forall|k: int|
                0 <= k < final(self).spec_pixels().len() ==> #[trigger] final(self).spec_pixels()[k]
                    == (Pixel { position: old(self).spec_pixels()[k].position, color: blank }),
    {
        let n = self.pixels.len();
        let mut k: usize = 0;
        while k < n
            invariant
                k <= n,
                n == self.pixels@.len(),
                self.width == old(self).width,
                self.height == old(self).height,
                self.pixels@.len() == old(self).pixels@.len(),
                forall|m: int|
                    0 <= m < n ==> #[trigger] self.pixels@[m].position == old(self).pixels@[m].position,
                forall|m: int| 0 <= m < k ==> #[trigger] self.pixels@[m].color == blank,
            decreases n - k,
        {
            self.pixels[k].color = blank;
            k = k + 1;
        }
        assert forall|m: int| 0 <= m < n implies #[trigger] self.pixels@[m] == (Pixel {
            position: old(self).pixels@[m].position,
            color: blank,
        }) by {
            assert(self.pixels@[m].color == blank);
            assert(self.pixels@[m].position == old(self).pixels@[m].position);
        }
    }

    /// The grid as `3 · width · height` bytes, row-major from the top-left
    /// pixel: each pixel contributes the three bytes that `quantize` gives for
    /// its accumulator.
    pub fn readout<F: Fn(&C) -> (u8, u8, u8)>(&self, quantize: F) -> (r: Vec<u8>)
        requires
            3 * self.spec_pixels().len() <= usize::MAX,
            forall|c: &C| #[trigger] quantize.requires((c,)),
        ensures
            r@.len() == 3 * self.spec_pixels().len(),
            forall|k: int|
                0 <= k < self.spec_pixels().len() ==> quantize.ensures(
                    (&#[trigger] self.spec_pixels()[k].color,),
                    (r@[3 * k], r@[3 * k + 1], r@[3 * k + 2]),
                ),
    {
        let mut bytes: Vec<u8> = Vec::new();
        let n = self.pixels.len();
        let mut k: usize = 0;
        while k < n
            invariant
                k <= n,
                n == self.pixels@.len(),
                3 * n <= usize::MAX,
                forall|c: &C| #[trigger] quantize.requires((c,)),
                bytes@.len() == 3 * k,
                forall|m: int|
                    0 <= m < k ==> quantize.ensures(
                        (&#[trigger] self.pixels@[m].color,),
                        (bytes@[3 * m], bytes@[3 * m + 1], bytes@[3 * m + 2]),
                    ),
            decreases n - k,
        {
            let (r, g, b) = quantize(&self.pixels[k].color);
            bytes.push(r);
            bytes.push(g);
            bytes.push(b);
            k = k + 1;
        }
        bytes
    }
}

} // verus!
