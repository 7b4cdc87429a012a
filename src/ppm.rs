use crate::types::{black_is_neutral, Pixel};
use vstd::prelude::*;

verus! {

/// Width or height of an image, in pixels.
pub type ImageSize = u32;

/// Value of one 8-bit channel in an encoded image.
pub type ColorChannel = u8;

/// Largest channel value written to a PPM file.
pub const PIXEL_DEPTH: usize = 255;

/// The pixels of an all-black image of `n` pixels.
pub open spec fn black_pixels<T: Pixel>(n: nat) -> Seq<T> {
    Seq::new(n, |i: int| T::black_spec())
}

/// Whether each pixel of `a` can take the pixel of `b` at the same place.
pub open spec fn can_add_pixels<T: Pixel>(a: Seq<T>, b: Seq<T>) -> bool {
    a.len() == b.len() && forall|i: int| 0 <= i < a.len() ==> #[trigger] a[i].can_add(b[i])
}

/// Pixel-by-pixel accumulation of `b` into `a`.
pub open spec fn add_pixels<T: Pixel>(a: Seq<T>, b: Seq<T>) -> Seq<T> {
    Seq::new(a.len(), |i: int| a[i].sum(b[i]))
}

/// Row-major place of pixel `(x, y)` in an image `width` pixels wide.
pub open spec fn pixel_index(x: int, y: int, width: int) -> int {
    x + y * width
}

/// ASCII code of `0`; the digit `d` is written as `DIGIT_ZERO + d`.
pub const DIGIT_ZERO: u8 = 48;

/// ASCII code of `3`.
pub const DIGIT_THREE: u8 = 51;

/// ASCII code of `P`.
pub const LETTER_P: u8 = 80;

/// ASCII code of a space.
pub const SPACE: u8 = 32;

/// ASCII code of a line feed.
pub const NEWLINE: u8 = 10;

/// Decimal digits of `n`, most significant first, without leading zeros.
pub open spec fn decimal(n: nat) -> Seq<u8>
    decreases n,
{
    if n < 10 {
        seq![(DIGIT_ZERO + n) as u8]
    } else {
        decimal(n / 10) + seq![(DIGIT_ZERO + n % 10) as u8]
    }
}

/// The header of a plain-text PPM file: magic number, size and channel depth.
pub open spec fn ppm_header(width: nat, height: nat) -> Seq<u8> {
    seq![LETTER_P, DIGIT_THREE, NEWLINE] + decimal(width) + seq![SPACE] + decimal(height) + seq![NEWLINE]
        + decimal(PIXEL_DEPTH as nat) + seq![NEWLINE]
}

/// One pixel of a plain-text PPM file: its three 8-bit channels on a line.
pub open spec fn ppm_pixel<T: Pixel>(p: T) -> Seq<u8> {
    decimal(p.rgb8().0 as nat) + seq![SPACE] + decimal(p.rgb8().1 as nat) + seq![SPACE]
        + decimal(p.rgb8().2 as nat) + seq![NEWLINE]
}

/// The pixel lines of a plain-text PPM file, in the order given.
pub open spec fn ppm_pixels<T: Pixel>(pixels: Seq<T>) -> Seq<u8>
    decreases pixels.len(),
{
    if pixels.len() == 0 {
        Seq::empty()
    } else {
        ppm_pixels(pixels.drop_last()) + ppm_pixel(pixels.last())
    }
}

/// A whole plain-text PPM file.
pub open spec fn ppm_file<T: Pixel>(width: nat, height: nat, pixels: Seq<T>) -> Seq<u8> {
    ppm_header(width, height) + ppm_pixels(pixels)
}

/// Appends the decimal digits of `n`.
fn push_decimal(out: &mut Vec<u8>, n: usize)
    ensures
        final(out)@ == old(out)@ + decimal(n as nat),
    decreases n,
{
    if n >= 10 {
        push_decimal(out, n / 10);
    }
    out.push(DIGIT_ZERO + (n % 10) as u8);
    assert(final(out)@ =~= old(out)@ + decimal(n as nat));
}

/// A `width` by `height` raster of pixels, stored row by row.
pub struct Image<T: Pixel> {
    width: ImageSize,
    height: ImageSize,
    data: Vec<T>,
}

impl<T: Pixel> Image<T> {
    /// Well-formedness: the pixel count is `width * height` and fits 32 bits.
    pub closed spec fn wf(&self) -> bool {
        &&& self.width * self.height <= u32::MAX
        &&& self.data@.len() == self.width * self.height
    }

    pub closed spec fn width_spec(&self) -> nat {
        self.width as nat
    }

    pub closed spec fn height_spec(&self) -> nat {
        self.height as nat
    }

    /// The pixels in row-major order: `(x, y)` is at `x + y * width`.
    pub closed spec fn pixels(&self) -> Seq<T> {
        self.data@
    }

    /// A well-formed image holds `width * height` pixels, a count that fits 32 bits.
    pub proof fn lemma_shape(&self)
        requires
            self.wf(),
        ensures
            self.pixels().len() == self.width_spec() * self.height_spec(),
            self.width_spec() * self.height_spec() <= u32::MAX,
    {
    }

    pub fn get_width(&self) -> (r: ImageSize)
        requires
            self.wf(),
        ensures
            r == self.width_spec(),
            self.pixels().len() == self.width_spec() * self.height_spec(),
            self.width_spec() * self.height_spec() <= u32::MAX,
    {
        self.width
    }

    pub fn get_height(&self) -> (r: ImageSize)
        requires
            self.wf(),
        ensures
            r == self.height_spec(),
            self.pixels().len() == self.width_spec() * self.height_spec(),
            self.width_spec() * self.height_spec() <= u32::MAX,
    {
        self.height
    }

    /// An all-black image; its pixel count must fit 32 bits.
    pub fn new(width: ImageSize, height: ImageSize) -> (img: Self)
        requires
            width * height <= u32::MAX,
        ensures
            img.wf(),
            img.width_spec() == width,
            img.height_spec() == height,
            img.pixels().len() == width * height,
            T::obeys_pixel_spec() ==> img.pixels() == black_pixels::<T>((width * height) as nat),
            T::obeys_pixel_spec() ==> black_is_neutral::<T>(),
    {
        let black = T::black();
        let n = (width * height) as usize;
        let mut data: Vec<T> = Vec::with_capacity(n);
        let mut i: usize = 0;
        while i < n
            invariant
                i <= n,
                data@.len() == i,
                T::obeys_pixel_spec() ==> data@ == black_pixels::<T>(i as nat),
                T::obeys_pixel_spec() ==> black == T::black_spec(),
            decreases n - i,
        {
            data.push(black);
            i = i + 1;
            proof {
                if T::obeys_pixel_spec() {
                    assert(data@ =~= black_pixels::<T>(i as nat));
                }
            }
        }
        Image { width, height, data }
    }

    /// Walks over the pixels in row-major order.
    pub fn iter(&self) -> (r: ImageIterator<'_, T>)
        requires
            self.wf(),
        ensures
            r.wf(),
            r.image() == *self,
            r.position() == 0,
    {
        ImageIterator { x: 0, y: 0, n: 0, img: self }
    }

    /// Walks over the pixels in row-major order, able to overwrite them.
    pub fn iter_mut(&mut self) -> (r: MutableImageIterator<'_, T>)
        requires
            old(self).wf(),
        ensures
            r.wf(),
            r.image() == *old(self),
            r.position() == 0,
    {
        let width = self.width;
        MutableImageIterator { img: self, width, x: 0, y: 0, n: 0 }
    }

    /// The image as a plain-text PPM file.
    pub fn to_ppm(&self) -> (r: Vec<u8>)
        requires
            self.wf(),
        ensures
            T::obeys_pixel_spec() ==> r@ == ppm_file(
                self.width_spec(),
                self.height_spec(),
                self.pixels(),
            ),
    {
        let mut out: Vec<u8> = Vec::new();
        out.push(LETTER_P);
        out.push(DIGIT_THREE);
        out.push(NEWLINE);
        push_decimal(&mut out, self.width as usize);
        out.push(SPACE);
        push_decimal(&mut out, self.height as usize);
        out.push(NEWLINE);
        push_decimal(&mut out, PIXEL_DEPTH);
        out.push(NEWLINE);
        let ghost header = out@;
        assert(header =~= ppm_header(self.width_spec(), self.height_spec()));
        let n = self.data.len();
        let mut i: usize = 0;
        while i < n
            invariant
                i <= n,
                n == self.data@.len(),
                T::obeys_pixel_spec() ==> out@ == header + ppm_pixels(
                    self.data@.subrange(0, i as int),
                ),
            decreases n - i,
        {
            let p = self.data[i];
            push_decimal(&mut out, p.red8() as usize);
            out.push(SPACE);
            push_decimal(&mut out, p.green8() as usize);
            out.push(SPACE);
            push_decimal(&mut out, p.blue8() as usize);
            out.push(NEWLINE);
            proof {
                if T::obeys_pixel_spec() {
                    let done = self.data@.subrange(0, i + 1);
                    assert(done.drop_last() =~= self.data@.subrange(0, i as int));
                    assert(done.last() == p);
                    assert(out@ =~= header + ppm_pixels(done));
                }
            }
            i = i + 1;
        }
        assert(self.data@.subrange(0, n as int) =~= self.data@);
        out
    }

    fn index(&self, x: ImageSize, y: ImageSize) -> (r: usize)
        requires
            self.wf(),
            x < self.width_spec(),
            y < self.height_spec(),
        ensures
            r == pixel_index(x as int, y as int, self.width_spec() as int),
            r < self.pixels().len(),
    {
        proof {
            lemma_index_in_bounds(x as int, y as int, self.width as int, self.height as int);
        }
        (x + y * self.width) as usize
    }

    pub fn set_pixel(&mut self, x: ImageSize, y: ImageSize, pixel: T)
        requires
            old(self).wf(),
            x < old(self).width_spec(),
            y < old(self).height_spec(),
        ensures
            final(self).wf(),
            final(self).width_spec() == old(self).width_spec(),
            final(self).height_spec() == old(self).height_spec(),
            final(self).pixels() == old(self).pixels().update(
                pixel_index(x as int, y as int, old(self).width_spec() as int),
                pixel,
            ),
            final(self).pixels().len() == old(self).pixels().len(),
    {
        let i = self.index(x, y);
        self.data.set(i, pixel);
    }

    pub fn get_pixel(&self, x: ImageSize, y: ImageSize) -> (r: T)
        requires
            self.wf(),
            x < self.width_spec(),
            y < self.height_spec(),
        ensures
            r == self.pixels()[pixel_index(x as int, y as int, self.width_spec() as int)],
    {
        let i = self.index(x, y);
        self.data[i]
    }

    /// Adds each pixel of `rhs` into the pixel at the same place. The two
    /// images must have the same shape.
    pub fn add_assign(&mut self, rhs: Self)
        requires
            old(self).wf(),
            rhs.wf(),
            old(self).width_spec() == rhs.width_spec(),
            old(self).height_spec() == rhs.height_spec(),
            T::obeys_pixel_spec() ==> can_add_pixels(old(self).pixels(), rhs.pixels()),
        ensures
            final(self).wf(),
            final(self).width_spec() == old(self).width_spec(),
            final(self).height_spec() == old(self).height_spec(),
            final(self).pixels().len() == old(self).pixels().len(),
            T::obeys_pixel_spec() ==> final(self).pixels() == add_pixels(
                old(self).pixels(),
                rhs.pixels(),
            ),
    {
        let n = self.data.len();
        let mut i: usize = 0;
        while i < n
            invariant
                i <= n,
                n == self.data@.len(),
                n == rhs.data@.len(),
                self.width == old(self).width,
                self.height == old(self).height,
                T::obeys_pixel_spec() ==> can_add_pixels(old(self).pixels(), rhs.pixels()),
                T::obeys_pixel_spec() ==> forall|j: int|
                    0 <= j < i ==> self.data@[j] == old(self).data@[j].sum(rhs.data@[j]),
                forall|j: int| i <= j < n ==> self.data@[j] == old(self).data@[j],
            decreases n - i,
        {
            let mut p = self.data[i];
            p.accumulate(rhs.data[i]);
            self.data.set(i, p);
            i = i + 1;
        }
        proof {
            if T::obeys_pixel_spec() {
                assert(self.data@ =~= add_pixels(old(self).pixels(), rhs.pixels()));
            }
        }
    }
}

/// Read-only walk over an image's pixels in row-major order, yielding
/// `(x, y, pixel)`.
pub struct ImageIterator<'a, T: Pixel> {
    x: ImageSize,
    y: ImageSize,
    n: ImageSize,
    img: &'a Image<T>,
}

impl<'a, T: Pixel> ImageIterator<'a, T> {
    /// Well-formedness: `(x, y)` is the place of the `n`-th pixel.
    pub closed spec fn wf(&self) -> bool {
        &&& self.img.wf()
        &&& self.n <= self.img.data@.len()
        &&& self.x + self.y * self.img.width == self.n
        &&& (self.x < self.img.width || (self.x == 0 && self.y == 0))
    }

    /// The image walked over.
    pub closed spec fn image(&self) -> Image<T> {
        *self.img
    }

    /// How many pixels were yielded so far.
    pub closed spec fn position(&self) -> nat {
        self.n as nat
    }

    pub fn next(&mut self) -> (r: Option<(ImageSize, ImageSize, &'a T)>)
        requires
            old(self).wf(),
        ensures
            final(self).wf(),
            final(self).image() == old(self).image(),
            (match r {
                Some((x, y, p)) => {
                    &&& old(self).position() < old(self).image().pixels().len()
                    &&& final(self).position() == old(self).position() + 1
                    &&& x < old(self).image().width_spec()
                    &&& pixel_index(x as int, y as int, old(self).image().width_spec() as int)
                        == old(self).position()
                    &&& *p == old(self).image().pixels()[old(self).position() as int]
                },
                None => {
                    &&& old(self).position() == old(self).image().pixels().len()
                    &&& final(self).position() == old(self).position()
                },
            }),
    {
        let img: &'a Image<T> = self.img;
        if (self.n as usize) >= img.data.len() {
            return None;
        }
        let pixel: &'a T = &img.data[self.n as usize];
        let ret = (self.x, self.y, pixel);
        proof {
            lemma_row_in_bounds(self.x as int, self.y as int, img.width as int, img.height as int);
        }
        if self.x + 1 >= img.width {
            self.x = 0;
            self.y = self.y + 1;
        } else {
            self.x = self.x + 1;
        }
        proof {
            lemma_next_row(ret.1 as int, img.width as int);
        }
        self.n = self.n + 1;
        Some(ret)
    }
}

/// Walk over an image's pixels in row-major order that can overwrite each
/// pixel: `next` moves onto the next pixel and gives its place, `set`
/// overwrites the pixel moved onto last.
pub struct MutableImageIterator<'a, T: Pixel> {
    img: &'a mut Image<T>,
    width: ImageSize,
    x: ImageSize,
    y: ImageSize,
    n: ImageSize,
}

impl<'a, T: Pixel> MutableImageIterator<'a, T> {
    /// Well-formedness: `(x, y)` is the place of the `n`-th pixel.
    pub closed spec fn wf(&self) -> bool {
        &&& self.img.wf()
        &&& self.width == self.img.width
        &&& self.n <= self.img.data@.len()
        &&& self.x + self.y * self.width == self.n
        &&& (self.x < self.width || (self.x == 0 && self.y == 0))
    }

    /// The image as it now stands.
    pub closed spec fn image(&self) -> Image<T> {
        *self.img
    }

    /// How many pixels were moved onto so far.
    pub closed spec fn position(&self) -> nat {
        self.n as nat
    }

    pub fn next(&mut self) -> (r: Option<(ImageSize, ImageSize)>)
        requires
            old(self).wf(),
        ensures
            final(self).wf(),
            final(self).image() == old(self).image(),
            (match r {
                Some((x, y)) => {
                    &&& old(self).position() < old(self).image().pixels().len()
                    &&& final(self).position() == old(self).position() + 1
                    &&& x < old(self).image().width_spec()
                    &&& pixel_index(x as int, y as int, old(self).image().width_spec() as int)
                        == old(self).position()
                },
                None => {
                    &&& old(self).position() == old(self).image().pixels().len()
                    &&& final(self).position() == old(self).position()
                },
            }),
    {
        if (self.n as usize) >= self.img.data.len() {
            return None;
        }
        let ret = (self.x, self.y);
        proof {
            lemma_row_in_bounds(self.x as int, self.y as int, self.width as int, self.img.height as int);
        }
        if self.x + 1 >= self.width {
            self.x = 0;
            self.y = self.y + 1;
        } else {
            self.x = self.x + 1;
        }
        proof {
            lemma_next_row(ret.1 as int, self.width as int);
        }
        self.n = self.n + 1;
        Some(ret)
    }

    /// Overwrites the pixel that `next` moved onto last.
    pub fn set(&mut self, pixel: T)
        requires
            old(self).wf(),
            old(self).position() > 0,
        ensures
            final(self).wf(),
            final(self).position() == old(self).position(),
            final(self).image().width_spec() == old(self).image().width_spec(),
            final(self).image().height_spec() == old(self).image().height_spec(),
            final(self).image().pixels() == old(self).image().pixels().update(
                old(self).position() - 1,
                pixel,
            ),
    {
        let i = (self.n - 1) as usize;
        self.img.data.set(i, pixel);
    }
}

/// The standard library's I/O error, carried through unchanged.
#[verifier::external_type_specification]
#[verifier::external_body]
pub struct ExIoError(std::io::Error);

/// Failure to store an image.
#[derive(Debug)]
pub enum Error {
    IOError(std::io::Error),
}

impl From<std::io::Error> for Error {
    fn from(value: std::io::Error) -> Self {
        Error::IOError(value)
    }
}

impl vstd::std_specs::convert::FromSpecImpl<std::io::Error> for Error {
    open spec fn obeys_from_spec() -> bool {
        true
    }

    open spec fn from_spec(v: std::io::Error) -> Self {
        Error::IOError(v)
    }
}

proof fn lemma_index_in_bounds(x: int, y: int, width: int, height: int)
    requires
        0 <= x < width,
        0 <= y < height,
    ensures
        x + y * width < width * height,
{
    assert(x + y * width < width * height) by (nonlinear_arith)
        requires
            0 <= x < width,
            0 <= y < height,
    ;
}

proof fn lemma_next_row(y: int, width: int)
    ensures
        (y + 1) * width == y * width + width,
{
    assert((y + 1) * width == y * width + width) by (nonlinear_arith);
}

proof fn lemma_row_in_bounds(x: int, y: int, width: int, height: int)
    requires
        0 <= x,
        0 <= y,
        0 <= height,
        x + y * width < width * height,
        x < width || (x == 0 && y == 0),
    ensures
        x < width,
        y < height,
{
    if x == 0 && y == 0 {
        assert(width > 0 && height > 0) by (nonlinear_arith)
            requires
                0 < width * height,
                0 <= height,
        ;
    }
    assert(y < height) by (nonlinear_arith)
        requires
            0 <= x < width,
            0 <= y,
            x + y * width < width * height,
    ;
}

} // verus!

