use vstd::prelude::*;

verus! {

/// Abstract state of a framebuffer: its geometry, its row-major pixels and
/// the number of frames published so far (modulo 2^64).
pub struct ScreenModel {
    pub width: nat,
    pub height: nat,
    pub pixels: Seq<u32>,
    pub frame_id: u64,
}

/// Channel `shift` (16 red, 8 green, 0 blue) of a packed color.
pub open spec fn channel(c: u32, shift: u32) -> int {
    ((c >> shift) & 0xff) as int
}

/// The decimal digits of `n` in ASCII.
pub open spec fn decimal_digits(n: nat) -> Seq<u8>
    decreases n,
{
    if n < 10 {
        seq![(48 + n) as u8]
    } else {
        decimal_digits(n / 10).push((48 + n % 10) as u8)
    }
}

/// The red, green and blue bytes of each pixel in turn; alpha is dropped.
pub open spec fn rgb_bytes(pixels: Seq<u32>) -> Seq<u8>
    decreases pixels.len(),
{
    if pixels.len() == 0 {
        Seq::empty()
    } else {
        let p = pixels.last();
        rgb_bytes(pixels.drop_last()) + seq![
            channel(p, 16) as u8,
            channel(p, 8) as u8,
            channel(p, 0) as u8,
        ]
    }
}

/// The header of a binary PPM image: `P6\n{width} {height}\n255\n`.
pub open spec fn ppm_header(width: nat, height: nat) -> Seq<u8> {
    seq![80u8, 54u8, 10u8] + decimal_digits(width) + seq![32u8] + decimal_digits(height) + seq![
        10u8,
        50u8,
        53u8,
        53u8,
        10u8,
    ]
}

/// A framebuffer as a binary PPM image.
pub open spec fn ppm_image(m: ScreenModel) -> Seq<u8> {
    ppm_header(m.width, m.height) + rgb_bytes(m.pixels)
}

/// Index of pixel `(x, y)` in a row-major grid of the given width.
pub open spec fn pixel_index(width: nat, x: int, y: int) -> int {
    y * width + x
}

/// Whether `(x, y)` lies inside the grid.
pub open spec fn in_bounds(m: ScreenModel, x: int, y: int) -> bool {
    0 <= x < m.width && 0 <= y < m.height
}

/// The color stored at `(x, y)`.
pub open spec fn pixel_at(m: ScreenModel, x: int, y: int) -> u32 {
    m.pixels[pixel_index(m.width, x, y)]
}

/// The frame counter after one more publication, wrapping at `u64::MAX`.
pub open spec fn next_frame_id(id: u64) -> u64 {
    if id == u64::MAX {
        0
    } else {
        (id + 1) as u64
    }
}

impl ScreenModel {
    pub open spec fn wf(self) -> bool {
        &&& self.width > 0
        &&& self.height > 0
        &&& self.pixels.len() == self.width * self.height
    }

    /// The same framebuffer with pixel `(x, y)` replaced.
    pub open spec fn with_pixel(self, x: int, y: int, color: u32) -> ScreenModel {
        ScreenModel { pixels: self.pixels.update(pixel_index(self.width, x, y), color), ..self }
    }
}

/// Row-major indexing is a bijection between the grid and `[0, width * height)`.
pub proof fn lemma_index_in_range(width: nat, height: nat, x: int, y: int)
    requires
        0 <= x < width,
        0 <= y < height,
    ensures
        0 <= pixel_index(width, x, y) < width * height,
{
    assert(0 <= y * width + x < width * height) by (nonlinear_arith)
        requires
            0 <= x < width,
            0 <= y < height,
    ;
}

pub proof fn lemma_index_injective(width: nat, x1: int, y1: int, x2: int, y2: int)
    requires
        0 <= x1 < width,
        0 <= x2 < width,
        0 <= y1,
        0 <= y2,
        pixel_index(width, x1, y1) == pixel_index(width, x2, y2),
    ensures
        x1 == x2,
        y1 == y2,
{
    assert(y1 == y2) by (nonlinear_arith)
        requires
            0 <= x1 < width,
            0 <= x2 < width,
            0 <= y1,
            0 <= y2,
            y1 * width + x1 == y2 * width + x2,
    ;
}

/// Writing one pixel changes that pixel and no other.
pub proof fn lemma_with_pixel(m: ScreenModel, x: int, y: int, color: u32)
    requires
        m.wf(),
        in_bounds(m, x, y),
    ensures
        m.with_pixel(x, y, color).wf(),
        forall|x2: int, y2: int|
            in_bounds(m, x2, y2) ==> #[trigger] pixel_at(m.with_pixel(x, y, color), x2, y2) == if x2
                == x && y2 == y {
                color
            } else {
                pixel_at(m, x2, y2)
            },
{
    lemma_index_in_range(m.width, m.height, x, y);
    assert forall|x2: int, y2: int| in_bounds(m, x2, y2) implies #[trigger] pixel_at(
        m.with_pixel(x, y, color),
        x2,
        y2,
    ) == if x2 == x && y2 == y {
        color
    } else {
        pixel_at(m, x2, y2)
    } by {
        lemma_index_in_range(m.width, m.height, x2, y2);
        if pixel_index(m.width, x2, y2) == pixel_index(m.width, x, y) {
            lemma_index_injective(m.width, x2, y2, x, y);
        }
    }
}

/// A fixed-size grid of 32-bit colors with a frame counter.
#[derive(Debug, Clone)]
pub struct ScreenBuffer {
    width: usize,
    height: usize,
    pixels: Vec<u32>,
    frame_id: u64,
}

impl View for ScreenBuffer {
    type V = ScreenModel;

    closed spec fn view(&self) -> ScreenModel {
        ScreenModel {
            width: self.width as nat,
            height: self.height as nat,
            pixels: self.pixels@,
            frame_id: self.frame_id,
        }
    }
}

impl ScreenBuffer {
    /// A `width` x `height` buffer of zero pixels with frame counter 0.
    pub fn new(width: usize, height: usize) -> (r: ScreenBuffer)
        requires
            width > 0,
            height > 0,
            width * height <= usize::MAX,
        ensures
            r@.wf(),
            r@.width == width,
            r@.height == height,
            r@.pixels == Seq::new((width * height) as nat, |i: int| 0u32),
            r@.frame_id == 0,
    {
        let len = width * height;
        let mut pixels: Vec<u32> = Vec::with_capacity(len);
        let mut i: usize = 0;
        while i < len
            invariant
                i <= len,
                pixels@ == Seq::new(i as nat, |k: int| 0u32),
            decreases len - i,
        {
            pixels.push(0);
            i = i + 1;
        }
        ScreenBuffer { width, height, pixels, frame_id: 0 }
    }

    pub fn width(&self) -> (r: usize)
        ensures
            r == self@.width,
    {
        self.width
    }

    pub fn height(&self) -> (r: usize)
        ensures
            r == self@.height,
    {
        self.height
    }

    pub fn dimensions(&self) -> (r: (usize, usize))
        ensures
            r.0 == self@.width,
            r.1 == self@.height,
    {
        (self.width, self.height)
    }

    pub fn frame_id(&self) -> (r: u64)
        ensures
            r == self@.frame_id,
    {
        self.frame_id
    }

    pub fn pixels(&self) -> (r: &[u32])
        ensures
            r@ == self@.pixels,
    {
        self.pixels.as_slice()
    }

    /// The pixels, for writing in place; the geometry and the frame counter stay.
    pub fn pixels_mut(&mut self) -> (r: &mut [u32])
        ensures
            r@ == old(self)@.pixels,
            final(self)@ == (ScreenModel { pixels: final(r)@, ..old(self)@ }),
    {
        self.pixels.as_mut_slice()
    }

    /// The buffer encoded as a binary PPM image.
    pub fn ppm_bytes(&self) -> (r: Vec<u8>)
        ensures
            r@ == ppm_image(self@),
    {
        let mut out: Vec<u8> = Vec::new();
        out.push(80);
        out.push(54);
        out.push(10);
        push_decimal(&mut out, self.width);
        out.push(32);
        push_decimal(&mut out, self.height);
        out.push(10);
        out.push(50);
        out.push(53);
        out.push(53);
        out.push(10);
        let ghost header = out@;
        assert(header =~= ppm_header(self@.width, self@.height));
        let n = self.pixels.len();
        let mut i: usize = 0;
        assert(self.pixels@.subrange(0, 0) =~= Seq::<u32>::empty());
        while i < n
            invariant
                n == self.pixels@.len(),
                i <= n,
                header == ppm_header(self@.width, self@.height),
                out@ == header + rgb_bytes(self.pixels@.subrange(0, i as int)),
            decreases n - i,
        {
            let p = self.pixels[i];
            out.push(((p >> 16) & 0xff) as u8);
            out.push(((p >> 8) & 0xff) as u8);
            out.push((p & 0xff) as u8);
            proof {
                let prefix = self.pixels@.subrange(0, i + 1);
                assert(prefix.drop_last() =~= self.pixels@.subrange(0, i as int));
                assert(prefix.last() == p);
                assert(p & 0xff == (p >> 0u32) & 0xff) by (bit_vector);
            }
            assert(out@ =~= header + rgb_bytes(self.pixels@.subrange(0, i + 1)));
            i = i + 1;
        }
        assert(self.pixels@.subrange(0, n as int) =~= self.pixels@);
        out
    }

    /// Sets every pixel to `color`.
    pub fn clear(&mut self, color: u32)
        requires
            old(self)@.wf(),
        ensures
            final(self)@ == (ScreenModel {
                pixels: Seq::new(old(self)@.pixels.len(), |i: int| color),
                ..old(self)@
            }),
    {
        let len = self.pixels.len();
        let mut i: usize = 0;
        while i < len
            invariant
                i <= len,
                len == old(self).pixels@.len(),
                self.width == old(self).width,
                self.height == old(self).height,
                self.frame_id == old(self).frame_id,
                self.pixels@.len() == len,
                forall|k: int| 0 <= k < i ==> self.pixels@[k] == color,
            decreases len - i,
        {
            self.pixels.set(i, color);
            i = i + 1;
        }
        assert(self.pixels@ =~= Seq::new(len as nat, |k: int| color));
    }

    /// The pixel index of `(x, y)`, or `None` outside the grid.
    fn index_of(&self, x: usize, y: usize) -> (r: Option<usize>)
        requires
            self@.wf(),
        ensures
            in_bounds(self@, x as int, y as int) ==> r is Some && r->0 as int == pixel_index(
                self@.width,
                x as int,
                y as int,
            ) && r->0 < self@.pixels.len(),
            !in_bounds(self@, x as int, y as int) ==> r is None,
    {
        let len = self.pixels.len();
        if x >= self.width || y >= self.height {
            return None;
        }
        proof {
            lemma_index_in_range(self.width as nat, self.height as nat, x as int, y as int);
            assert(y * self.width <= y * self.width + x);
        }
        Some(y * self.width + x)
    }

    /// The color at `(x, y)`, or `None` outside the grid.
    pub fn get_pixel(&self, x: usize, y: usize) -> (r: Option<u32>)
        requires
            self@.wf(),
        ensures
            in_bounds(self@, x as int, y as int) ==> r == Some(pixel_at(self@, x as int, y as int)),
            !in_bounds(self@, x as int, y as int) ==> r is None,
    {
        match self.index_of(x, y) {
            Some(i) => {
                assert(i as int == pixel_index(self@.width, x as int, y as int));
                Some(self.pixels[i])
            },
            None => None,
        }
    }

    /// Writes `color` at `(x, y)` and returns true; outside the grid it
    /// changes nothing and returns false.
    pub fn set_pixel(&mut self, x: usize, y: usize, color: u32) -> (r: bool)
        requires
            old(self)@.wf(),
        ensures
            r == in_bounds(old(self)@, x as int, y as int),
            r ==> final(self)@ == old(self)@.with_pixel(x as int, y as int, color),
            !r ==> final(self)@ == old(self)@,
    {
        match self.index_of(x, y) {
            Some(i) => {
                self.pixels.set(i, color);
                true
            },
            None => false,
        }
    }

    /// Counts one more published frame (wrapping) and returns the new count.
    pub fn publish_frame(&mut self) -> (r: u64)
        ensures
            final(self)@ == (ScreenModel { frame_id: next_frame_id(old(self)@.frame_id), ..old(self)@ }),
            r == final(self)@.frame_id,
    {
        self.frame_id = self.frame_id.wrapping_add(1);
        self.frame_id
    }
}

fn push_decimal(out: &mut Vec<u8>, n: usize)
    ensures
        final(out)@ == old(out)@ + decimal_digits(n as nat),
    decreases n,
{
    if n >= 10 {
        push_decimal(out, n / 10);
    }
    out.push((48 + n % 10) as u8);
    proof {
        if n < 10 {
            assert(decimal_digits(n as nat) == seq![(48 + n) as u8]);
        }
    }
    assert(final(out)@ =~= old(out)@ + decimal_digits(n as nat)) by {
        if n >= 10 {
            assert(decimal_digits(n as nat) == decimal_digits((n / 10) as nat).push(
                (48 + n % 10) as u8,
            ));
        }
    }
}

} // verus!
