//! Screenshots.
use vstd::prelude::*;

verus! {

/// The red, green and blue parts of a pixel.
pub type Rgb = (u8, u8, u8);

/// A picture of red, green and blue bytes, row by row.
#[derive(Debug)]
pub struct RgbImage {
    width: u32,
    height: u32,
    data: Vec<u8>,
}

/// Where the pixel starts in the bytes.
pub open spec fn offset(width: int, x: int, y: int) -> int {
    (y * width + x) * 3
}

proof fn lemma_offset(width: int, height: int, x: int, y: int)
    requires
        0 <= x < width,
        0 <= y < height,
    ensures
        0 <= y * width,
        0 <= offset(width, x, y),
        offset(width, x, y) + 3 <= width * height * 3,
{
    assert(0 <= y * width) by (nonlinear_arith)
        requires
            0 <= y,
            0 <= width,
    ;
    assert(y * width + width <= width * height) by (nonlinear_arith)
        requires
            0 <= y < height,
            0 <= width,
    ;
}

proof fn lemma_offset_injective(width: int, x: int, y: int, u: int, v: int)
    requires
        0 <= x < width,
        0 <= u < width,
        offset(width, x, y) == offset(width, u, v),
    ensures
        x == u,
        y == v,
{
    assert(y == v && x == u) by (nonlinear_arith)
        requires
            0 <= x < width,
            0 <= u < width,
            y * width + x == v * width + u,
    ;
}

impl RgbImage {
    #[verifier::type_invariant]
    spec fn well_formed(self) -> bool {
        self.data@.len() == self.width * self.height * 3
    }

    pub closed spec fn spec_width(&self) -> u32 {
        self.width
    }

    pub closed spec fn spec_height(&self) -> u32 {
        self.height
    }

    /// The pixel at a place.
    pub closed spec fn at(&self, x: int, y: int) -> Rgb {
        let k = offset(self.width as int, x, y);
        (self.data@[k], self.data@[k + 1], self.data@[k + 2])
    }

    /// A place inside the picture.
    pub open spec fn contains(&self, x: int, y: int) -> bool {
        0 <= x < self.spec_width() && 0 <= y < self.spec_height()
    }

    /// A black picture.
    pub fn new(width: u32, height: u32) -> (image: Self)
        requires
            width * height * 3 <= usize::MAX,
        ensures
            image.spec_width() == width,
            image.spec_height() == height,
            forall|x: int, y: int|
                image.contains(x, y) ==> #[trigger] image.at(x, y) == (0u8, 0u8, 0u8),
    {
        assert(0 <= width * height <= width * height * 3) by (nonlinear_arith)
            requires
                0 <= width,
                0 <= height,
        ;
        let n: usize = width as usize * height as usize * 3;
        let mut data: Vec<u8> = Vec::new();
        let mut i: usize = 0;
        while i < n
            invariant
                i <= n,
                data@.len() == i,
                forall|k: int| 0 <= k < i ==> #[trigger] data@[k] == 0,
            decreases n - i,
        {
            data.push(0);
            i = i + 1;
        }
        let image = RgbImage { width, height, data };
        assert forall|x: int, y: int| image.contains(x, y) implies #[trigger] image.at(x, y) == (
            0u8,
            0u8,
            0u8,
        ) by {
            lemma_offset(width as int, height as int, x, y);
        }
        image
    }

    /// A picture of given bytes; nothing where their number does not fit the
    /// size.
    pub fn from_raw(width: u32, height: u32, data: Vec<u8>) -> (image: Option<Self>)
        ensures
            match image {
                Some(i) => data@.len() == width * height * 3 && i.spec_width() == width
                    && i.spec_height() == height && forall|x: int, y: int|
                    i.contains(x, y) ==> #[trigger] i.at(x, y) == (
                        data@[offset(width as int, x, y)],
                        data@[offset(width as int, x, y) + 1],
                        data@[offset(width as int, x, y) + 2],
                    ),
                None => data@.len() != width * height * 3,
            },
    {
        assert(0 <= width * height <= 0xffff_ffff * 0xffff_ffff) by (nonlinear_arith)
            requires
                0 <= width <= 0xffff_ffff,
                0 <= height <= 0xffff_ffff,
        ;
        let n: u128 = width as u128 * height as u128 * 3;
        if data.len() as u128 == n {
            Some(RgbImage { width, height, data })
        } else {
            None
        }
    }

    /// The width.
    pub fn width(&self) -> (w: u32)
        ensures
            w == self.spec_width(),
    {
        self.width
    }

    /// The height.
    pub fn height(&self) -> (h: u32)
        ensures
            h == self.spec_height(),
    {
        self.height
    }

    /// The pixel at a place.
    pub fn pixel(&self, x: u32, y: u32) -> (p: Rgb)
        requires
            self.contains(x as int, y as int),
        ensures
            p == self.at(x as int, y as int),
    {
        proof {
            use_type_invariant(self);
            lemma_offset(self.width as int, self.height as int, x as int, y as int);
        }
        let len: usize = self.data.len();
        let k: usize = (y as usize * self.width as usize + x as usize) * 3;
        (self.data[k], self.data[k + 1], self.data[k + 2])
    }

    /// The bytes, row by row.
    pub fn bytes(&self) -> (data: &Vec<u8>)
        ensures
            data@.len() == self.spec_width() * self.spec_height() * 3,
            forall|x: int, y: int|
                self.contains(x, y) ==> #[trigger] self.at(x, y) == (
                    data@[offset(self.spec_width() as int, x, y)],
                    data@[offset(self.spec_width() as int, x, y) + 1],
                    data@[offset(self.spec_width() as int, x, y) + 2],
                ),
    {
        proof {
            use_type_invariant(self);
        }
        &self.data
    }

    /// A copy of the bytes, row by row.
    pub fn copy_bytes(&self) -> (data: Vec<u8>)
        ensures
            data@.len() == self.spec_width() * self.spec_height() * 3,
            forall|x: int, y: int|
                self.contains(x, y) ==> #[trigger] self.at(x, y) == (
                    data@[offset(self.spec_width() as int, x, y)],
                    data@[offset(self.spec_width() as int, x, y) + 1],
                    data@[offset(self.spec_width() as int, x, y) + 2],
                ),
    {
        proof {
            use_type_invariant(self);
        }
        let mut data: Vec<u8> = Vec::new();
        let mut i: usize = 0;
        while i < self.data.len()
            invariant
                i <= self.data@.len(),
                data@ == self.data@.take(i as int),
            decreases self.data@.len() - i,
        {
            data.push(self.data[i]);
            i = i + 1;
            assert(self.data@.take(i as int) =~= self.data@.take(i - 1).push(self.data@[i - 1]));
        }
        assert(data@ =~= self.data@);
        data
    }

    /// A part of the picture.
    pub fn crop(&self, x: u32, y: u32, w: u32, h: u32) -> (part: RgbImage)
        requires
            x + w <= self.spec_width(),
            y + h <= self.spec_height(),
        ensures
            part.spec_width() == w,
            part.spec_height() == h,
            forall|u: int, v: int|
                part.contains(u, v) ==> #[trigger] part.at(u, v) == self.at(x + u, y + v),
    {
        proof {
            use_type_invariant(self);
        }
        let all: usize = self.data.len();
        assert(w * h * 3 <= all) by (nonlinear_arith)
            requires
                all == self.width * self.height * 3,
                0 <= w <= self.width,
                0 <= h <= self.height,
        ;
        let mut part = RgbImage::new(w, h);
        let mut v: u32 = 0;
        while v < h
            invariant
                v <= h,
                x + w <= self.spec_width(),
                y + h <= self.spec_height(),
                part.spec_width() == w,
                part.spec_height() == h,
                forall|a: int, b: int|
                    0 <= a < w && 0 <= b < v ==> #[trigger] part.at(a, b) == self.at(
                        x + a,
                        y + b,
                    ),
            decreases h - v,
        {
            let mut u: u32 = 0;
            while u < w
                invariant
                    u <= w,
                    v < h,
                    x + w <= self.spec_width(),
                    y + h <= self.spec_height(),
                    part.spec_width() == w,
                    part.spec_height() == h,
                    forall|a: int, b: int|
                        0 <= a < w && 0 <= b < v || b == v && 0 <= a < u ==> #[trigger] part.at(
                            a,
                            b,
                        ) == self.at(x + a, y + b),
                decreases w - u,
            {
                let p = self.pixel(x + u, y + v);
                part.set_pixel(u, v, p);
                u = u + 1;
            }
            v = v + 1;
        }
        part
    }

    /// Paints the pixel at a place; places outside the picture are passed over.
    pub fn set_pixel(&mut self, x: u32, y: u32, rgb: Rgb)
        ensures
            final(self).spec_width() == old(self).spec_width(),
            final(self).spec_height() == old(self).spec_height(),
            forall|u: int, v: int|
                old(self).contains(u, v) ==> #[trigger] final(self).at(u, v) == if u == x && v
                    == y {
                    rgb
                } else {
                    old(self).at(u, v)
                },
    {
        proof {
            use_type_invariant(&*self);
        }
        if x < self.width && y < self.height {
            let ghost w = self.width as int;
            let ghost h = self.height as int;
            let ghost before = self.data@;
            proof {
                lemma_offset(w, h, x as int, y as int);
            }
            let width: usize = self.width as usize;
            let len: usize = self.data.len();
            let k: usize = (y as usize * width + x as usize) * 3;
            self.data[k] = rgb.0;
            self.data[k + 1] = rgb.1;
            self.data[k + 2] = rgb.2;
            let ghost data = self.data@;
            proof {
                assert forall|u: int, v: int| 0 <= u < w && 0 <= v < h implies ({
                    let o = #[trigger] offset(w, u, v);
                    (data[o], data[o + 1], data[o + 2])
                }) == (if u == x && v == y {
                    rgb
                } else {
                    let o = offset(w, u, v);
                    (before[o], before[o + 1], before[o + 2])
                }) by {
                    lemma_offset(w, h, u, v);
                    if !(u == x && v == y) {
                        let o = offset(w, u, v);
                        assert(o != k) by {
                            if o == k {
                                lemma_offset_injective(w, u, v, x as int, y as int);
                            }
                        }
                        assert(o % 3 == 0 && k % 3 == 0);
                    }
                }
            }
        }
    }
}

/// The mean of the three parts of a pixel.
pub open spec fn brightness(p: Rgb) -> int {
    (p.0 + p.1 + p.2) / 3
}

/// The mean of the three parts of a pixel.
pub fn pixel_brightness(p: Rgb) -> (b: u32)
    ensures
        b == brightness(p),
        b <= 255,
{
    (p.0 as u32 + p.1 as u32 + p.2 as u32) / 3
}

} // verus!
