//! Userland access to the framebuffers of the system, pixel by pixel.
//!
//! The memory of a framebuffer is handed to these functions as a byte slice, which the caller
//! obtains from the mapping that the kernel made.
use vstd::prelude::*;
use crate::sys;
use crate::sys::{
    FORMAT_BGR24, FORMAT_BGR32, FORMAT_RGB24, FORMAT_RGB32, format_bytes_per_pixel,
    format_red_first,
};

verus! {

/// A color, with one byte per channel.
#[derive(Debug, Clone, Copy, PartialEq, Eq, Structural)]
pub struct Rgb {
    /// The red channel.
    pub red: u8,
    /// The green channel.
    pub green: u8,
    /// The blue channel.
    pub blue: u8,
}

impl Rgb {
    /// Creates a new color from its channels.
    pub fn new(red: u8, green: u8, blue: u8) -> (r: Self)
        ensures
            r == (Rgb { red, green, blue }),
    {
        Rgb { red, green, blue }
    }

    /// Black.
    pub fn black() -> (r: Self)
        ensures
            r == (Rgb { red: 0, green: 0, blue: 0 }),
    {
        Rgb::new(0, 0, 0)
    }

    /// White.
    pub fn white() -> (r: Self)
        ensures
            r == (Rgb { red: 255, green: 255, blue: 255 }),
    {
        Rgb::new(255, 255, 255)
    }
}

/// The bytes of the framebuffer memory after a pixel of color `c` was encoded at `at`: its
/// red, green and blue channels in this order when `red_first`, else blue, green and red.
pub open spec fn encoded(mem: Seq<u8>, at: int, c: Rgb, red_first: bool) -> Seq<u8> {
    if red_first {
        mem.update(at, c.red).update(at + 1, c.green).update(at + 2, c.blue)
    } else {
        mem.update(at, c.blue).update(at + 1, c.green).update(at + 2, c.red)
    }
}

/// The color of the pixel encoded at `at`, red first when `red_first`, else blue first.
pub open spec fn decoded(mem: Seq<u8>, at: int, red_first: bool) -> Rgb {
    if red_first {
        Rgb { red: mem[at], green: mem[at + 1], blue: mem[at + 2] }
    } else {
        Rgb { red: mem[at + 2], green: mem[at + 1], blue: mem[at] }
    }
}

/// Writes the three channels of a color at `at`, red first when `red_first`, else blue first.
fn write_channels(dst: &mut [u8], at: usize, c: Rgb, red_first: bool)
    requires
        at + 3 <= old(dst)@.len(),
    ensures
        final(dst)@ == encoded(old(dst)@, at as int, c, red_first),
{
    if red_first {
        dst[at] = c.red;
        dst[at + 1] = c.green;
        dst[at + 2] = c.blue;
    } else {
        dst[at] = c.blue;
        dst[at + 1] = c.green;
        dst[at + 2] = c.red;
    }
}

/// Reads the three channels of a color at `at`, red first when `red_first`, else blue first.
fn read_channels(src: &[u8], at: usize, red_first: bool) -> (r: Rgb)
    requires
        at + 3 <= src@.len(),
    ensures
        r == decoded(src@, at as int, red_first),
{
    assert(src@.len() == src.len());
    if red_first {
        Rgb { red: src[at], green: src[at + 1], blue: src[at + 2] }
    } else {
        Rgb { red: src[at + 2], green: src[at + 1], blue: src[at] }
    }
}

/// Decoding a pixel that was just encoded, in the same byte order, gives its color back.
pub proof fn lemma_encode_decode(mem: Seq<u8>, at: int, c: Rgb, red_first: bool)
    requires
        0 <= at,
        at + 3 <= mem.len(),
    ensures
        decoded(encoded(mem, at, c, red_first), at, red_first) == c,
        encoded(mem, at, c, red_first).len() == mem.len(),
{
}

/// A pixel format of a framebuffer.
pub trait FramebufferFormat: Sized {
    /// The color of a pixel.
    spec fn color(self) -> Rgb;

    /// The raw format of the framebuffers that use this pixel format.
    spec fn format_spec() -> sys::FramebufferFormat;

    /// Whether the red channel is stored first (else the blue one is).
    spec fn red_first() -> bool;

    /// Returns the raw format of the framebuffers that use this pixel format.
    fn format() -> (r: sys::FramebufferFormat)
        ensures
            r == Self::format_spec(),
    ;

    /// Decodes the pixel stored at `at`.
    fn decode(src: &[u8], at: usize) -> (r: Self)
        requires
            at + 3 <= src@.len(),
        ensures
            r.color() == decoded(src@, at as int, Self::red_first()),
    ;

    /// Encodes this pixel at `at`.
    fn encode(self, dst: &mut [u8], at: usize)
        requires
            at + 3 <= old(dst)@.len(),
        ensures
            final(dst)@ == encoded(old(dst)@, at as int, self.color(), Self::red_first()),
    ;
}

/// A pixel of a 32-bit framebuffer whose bytes are blue, green, red and unused.
#[derive(Debug, Clone, Copy, PartialEq, Eq, Structural)]
pub struct Bgr32(pub Rgb);

/// A pixel of a 32-bit framebuffer whose bytes are red, green, blue and unused.
#[derive(Debug, Clone, Copy, PartialEq, Eq, Structural)]
pub struct Rgb32(pub Rgb);

/// A pixel of a 24-bit framebuffer whose bytes are blue, green and red.
#[derive(Debug, Clone, Copy, PartialEq, Eq, Structural)]
pub struct Bgr24(pub Rgb);

/// A pixel of a 24-bit framebuffer whose bytes are red, green and blue.
#[derive(Debug, Clone, Copy, PartialEq, Eq, Structural)]
pub struct Rgb24(pub Rgb);

impl FramebufferFormat for Bgr32 {
    open spec fn color(self) -> Rgb {
        self.0
    }

    open spec fn format_spec() -> sys::FramebufferFormat {
        sys::FramebufferFormat(FORMAT_BGR32)
    }

    open spec fn red_first() -> bool {
        false
    }

    fn format() -> (r: sys::FramebufferFormat) {
        sys::FramebufferFormat(FORMAT_BGR32)
    }

    fn decode(src: &[u8], at: usize) -> (r: Self) {
        Bgr32(read_channels(src, at, false))
    }

    fn encode(self, dst: &mut [u8], at: usize) {
        write_channels(dst, at, self.0, false)
    }
}

impl FramebufferFormat for Rgb32 {
    open spec fn color(self) -> Rgb {
        self.0
    }

    open spec fn format_spec() -> sys::FramebufferFormat {
        sys::FramebufferFormat(FORMAT_RGB32)
    }

    open spec fn red_first() -> bool {
        true
    }

    fn format() -> (r: sys::FramebufferFormat) {
        sys::FramebufferFormat(FORMAT_RGB32)
    }

    fn decode(src: &[u8], at: usize) -> (r: Self) {
        Rgb32(read_channels(src, at, true))
    }

    fn encode(self, dst: &mut [u8], at: usize) {
        write_channels(dst, at, self.0, true)
    }
}

impl FramebufferFormat for Bgr24 {
    open spec fn color(self) -> Rgb {
        self.0
    }

    open spec fn format_spec() -> sys::FramebufferFormat {
        sys::FramebufferFormat(FORMAT_BGR24)
    }

    open spec fn red_first() -> bool {
        false
    }

    fn format() -> (r: sys::FramebufferFormat) {
        sys::FramebufferFormat(FORMAT_BGR24)
    }

    fn decode(src: &[u8], at: usize) -> (r: Self) {
        Bgr24(read_channels(src, at, false))
    }

    fn encode(self, dst: &mut [u8], at: usize) {
        write_channels(dst, at, self.0, false)
    }
}

impl FramebufferFormat for Rgb24 {
    open spec fn color(self) -> Rgb {
        self.0
    }

    open spec fn format_spec() -> sys::FramebufferFormat {
        sys::FramebufferFormat(FORMAT_RGB24)
    }

    open spec fn red_first() -> bool {
        true
    }

    fn format() -> (r: sys::FramebufferFormat) {
        sys::FramebufferFormat(FORMAT_RGB24)
    }

    fn decode(src: &[u8], at: usize) -> (r: Self) {
        Rgb24(read_channels(src, at, true))
    }

    fn encode(self, dst: &mut [u8], at: usize) {
        write_channels(dst, at, self.0, true)
    }
}

/// A framebuffer that the process has acquired.
#[derive(Debug, Clone, Copy)]
pub struct Framebuffer(pub sys::Framebuffer);

/// Where the pixel at `(x, y)` starts in the memory of a framebuffer.
pub open spec fn pixel_index(fb: sys::Framebuffer, x: int, y: int) -> int {
    y * fb.bytes_per_lines + x * format_bytes_per_pixel(fb.format.0)
}

/// Whether every pixel of a framebuffer lies within its size, which fits in memory.
pub open spec fn well_sized(fb: sys::Framebuffer) -> bool {
    &&& fb.bytes_per_lines * fb.height <= usize::MAX
    &&& fb.width * format_bytes_per_pixel(fb.format.0) <= fb.bytes_per_lines
}

impl Framebuffer {
    /// Returns the width of the framebuffer, in pixels.
    pub fn width(&self) -> (r: usize)
        ensures
            r == self.0.width,
    {
        self.0.width as usize
    }

    /// Returns the height of the framebuffer, in pixels.
    pub fn height(&self) -> (r: usize)
        ensures
            r == self.0.height,
    {
        self.0.height as usize
    }

    /// Returns the format of the framebuffer.
    pub fn format(&self) -> (r: sys::FramebufferFormat)
        ensures
            r == self.0.format,
    {
        self.0.format
    }

    /// Returns the size of the framebuffer, in bytes.
    pub fn size_in_bytes(&self) -> (r: usize)
        requires
            self.0.bytes_per_lines * self.0.height <= usize::MAX,
        ensures
            r == self.0.bytes_per_lines * self.0.height,
    {
        self.0.size()
    }

    /// Returns the number of bytes per pixel, or 0 if the format is not known.
    pub fn bytes_per_pixels(&self) -> (r: usize)
        ensures
            r == format_bytes_per_pixel(self.0.format.0),
    {
        self.0.format.bytes_per_pixel() as usize
    }

    /// Returns the number of bytes between the start of one line and the start of the next.
    pub fn bytes_per_line(&self) -> (r: usize)
        ensures
            r == self.0.bytes_per_lines,
    {
        self.0.bytes_per_lines
    }

    /// Returns where the pixel at `(x, y)` starts in the memory of the framebuffer.
    pub fn index_of(&self, x: usize, y: usize) -> (r: usize)
        requires
            well_sized(self.0),
            x < self.0.width,
            y < self.0.height,
        ensures
            r == pixel_index(self.0, x as int, y as int),
            r + format_bytes_per_pixel(self.0.format.0) <= self.0.bytes_per_lines * self.0.height,
    {
        let bpl = self.0.bytes_per_lines;
        let bpp = self.bytes_per_pixels();
        let w = self.0.width as usize;
        let h = self.0.height as usize;
        proof {
            assert(x * bpp + bpp <= w * bpp) by (nonlinear_arith)
                requires
                    x < w,
            ;
            assert(y * bpl + bpl <= h * bpl) by (nonlinear_arith)
                requires
                    y < h,
            ;
            assert(h * bpl == bpl * h) by (nonlinear_arith);
        }
        y * bpl + x * bpp
    }

    /// Views this framebuffer as one of the pixel format `T`, which it must have.
    pub fn into_typed_unchecked<T: FramebufferFormat>(self) -> (r: TypedFramebuffer<T>)
        requires
            self.0.format == T::format_spec(),
        ensures
            r.inner == self,
    {
        TypedFramebuffer { inner: self, marker: core::marker::PhantomData }
    }

    /// Views this framebuffer as one of the pixel format `T`, if it has that format.
    pub fn into_typed<T: FramebufferFormat>(self) -> (r: Option<TypedFramebuffer<T>>)
        ensures
            match r {
                Some(t) => t.inner == self && self.0.format == T::format_spec(),
                None => self.0.format != T::format_spec(),
            },
    {
        let f = T::format();
        if self.0.format.0 == f.0 {
            Some(TypedFramebuffer { inner: self, marker: core::marker::PhantomData })
        } else {
            None
        }
    }
}

/// A framebuffer whose pixel format is known to be `T`.
#[derive(Debug)]
pub struct TypedFramebuffer<T> {
    /// The framebuffer.
    pub inner: Framebuffer,
    /// The pixel format.
    pub marker: core::marker::PhantomData<T>,
}

impl<T: FramebufferFormat> TypedFramebuffer<T> {
    /// The format of the framebuffer, as its raw value.
    pub open spec fn format_value(self) -> sys::FramebufferFormat {
        self.inner.0.format
    }

    /// Returns the pixel at `(x, y)`, read from `memory`, the memory of the framebuffer.
    pub fn pixel(&self, memory: &[u8], x: usize, y: usize) -> (r: T)
        requires
            well_sized(self.inner.0),
            format_bytes_per_pixel(self.inner.0.format.0) >= 3,
            memory@.len() >= self.inner.0.bytes_per_lines * self.inner.0.height,
            x < self.inner.0.width,
            y < self.inner.0.height,
        ensures
            r.color() == decoded(
                memory@,
                pixel_index(self.inner.0, x as int, y as int),
                T::red_first(),
            ),
    {
        let at = self.inner.index_of(x, y);
        T::decode(memory, at)
    }

    /// Sets the pixel at `(x, y)` in `memory`, the memory of the framebuffer.
    pub fn set_pixel(&self, memory: &mut [u8], x: usize, y: usize, pixel: T)
        requires
            well_sized(self.inner.0),
            format_bytes_per_pixel(self.inner.0.format.0) >= 3,
            old(memory)@.len() >= self.inner.0.bytes_per_lines * self.inner.0.height,
            x < self.inner.0.width,
            y < self.inner.0.height,
        ensures
            final(memory)@ == encoded(
                old(memory)@,
                pixel_index(self.inner.0, x as int, y as int),
                pixel.color(),
                T::red_first(),
            ),
    {
        let at = self.inner.index_of(x, y);
        pixel.encode(memory, at)
    }
}

/// Reading a pixel just after setting it gives back its color.
pub proof fn lemma_set_then_get(
    fb: sys::Framebuffer,
    mem: Seq<u8>,
    x: int,
    y: int,
    c: Rgb,
    red_first: bool,
)
    requires
        0 <= x,
        0 <= y,
        0 <= pixel_index(fb, x, y),
        pixel_index(fb, x, y) + 3 <= mem.len(),
    ensures
        decoded(
            encoded(mem, pixel_index(fb, x, y), c, red_first),
            pixel_index(fb, x, y),
            red_first,
        ) == c,
{
    lemma_encode_decode(mem, pixel_index(fb, x, y), c, red_first);
}

/// Each pixel type encodes its channels in the order that its format names: red first exactly
/// for the formats that store red first.
pub proof fn lemma_pixel_order_follows_format()
    ensures
        Rgb24::red_first() == format_red_first(Rgb24::format_spec().0),
        Rgb32::red_first() == format_red_first(Rgb32::format_spec().0),
        Bgr24::red_first() == format_red_first(Bgr24::format_spec().0),
        Bgr32::red_first() == format_red_first(Bgr32::format_spec().0),
        Rgb24::red_first() && Rgb32::red_first() && !Bgr24::red_first() && !Bgr32::red_first(),
{
}

} // verus!
