//! Raw RGB images, and rectangular views on images.

use std::ops::Range;
use vstd::arithmetic::div_mod::{lemma_fundamental_div_mod, lemma_mod_pos_bound};
use vstd::prelude::*;

use crate::color::Color;
use crate::text::{byte_list, decimal, push_byte_list, push_decimal};

pub mod prelude;
use crate::kitty::{
    base64_standard, encode_png_rgb8, kitty_from_png, kitty_pieces, kitty_pieces_from_png, kitty_stream,
    png_rgb8,
};

verus! {

/// `std::io::Error`, carried opaque in `RawImageError`.
#[verifier::external_type_specification]
#[verifier::external_body]
pub struct ExIoError(std::io::Error);

/// `::image::ImageError`, carried opaque in `RawImageError`.
#[verifier::external_type_specification]
#[verifier::external_body]
pub struct ExImageError(::image::ImageError);

/// Number of bytes per pixel of a raw image.
pub const CHANNELS: u32 = 3;

/// Offset in the bytes of a raw image of width `w` of the first byte of the
/// pixel at `(x, y)`.
pub open spec fn pixel_offset(w: int, x: int, y: int) -> int {
    (y * w + x) * 3
}

/// The color stored at byte offset `off` of `bytes`.
pub open spec fn color_of_bytes(bytes: Seq<u8>, off: int) -> Color {
    Color { red: bytes[off], green: bytes[off + 1], blue: bytes[off + 2] }
}

/// An image: a rectangle of colors.
pub trait Image: Sized {
    /// Width of the image, in pixels.
    spec fn spec_width(&self) -> nat;

    /// Height of the image, in pixels.
    spec fn spec_height(&self) -> nat;

    /// What `color_at(x, y)` returns.
    spec fn spec_color_at(&self, x: int, y: int) -> Option<Color>;

    /// The image is well formed.
    spec fn wf(&self) -> bool;

    /// `color_at(x, y)` can be computed without overflow.
    spec fn can_get(&self, x: int, y: int) -> bool;

    /// `color_at_unchecked(x, y)` reads a color that is there.
    spec fn can_get_unchecked(&self, x: int, y: int) -> bool;

    /// `to_raw_image` can be computed.
    spec fn can_export(&self) -> bool;

    /// `width` can be computed.
    spec fn can_width(&self) -> bool;

    /// `height` can be computed.
    spec fn can_height(&self) -> bool;

    /// Get the width of the image, in pixels.
    fn width(&self) -> (r: u32)
        requires
            self.can_width(),
        ensures
            r == self.spec_width(),
    ;

    /// Get the height of the image, in pixels.
    fn height(&self) -> (r: u32)
        requires
            self.can_height(),
        ensures
            r == self.spec_height(),
    ;

    /// Get the color at the given coordinates.
    fn color_at(&self, x: u32, y: u32) -> (r: Option<Color>)
        requires
            self.wf(),
            self.can_get(x as int, y as int),
        ensures
            r == self.spec_color_at(x as int, y as int),
    ;

    /// Get the color at the given coordinates, which the caller knows to hold
    /// one.
    fn color_at_unchecked(&self, x: u32, y: u32) -> (r: Color)
        requires
            self.wf(),
            self.can_get_unchecked(x as int, y as int),
        ensures
            self.spec_color_at(x as int, y as int) == Some(r),
    ;

    /// Convert this image to a raw image.
    fn to_raw_image(&self) -> (r: RawImage)
        requires
            self.wf(),
            self.can_export(),
        ensures
            r.valid(),
            r.cols() == self.spec_width(),
            r.rows() == self.spec_height(),
            forall|x: int, y: int|
                0 <= x < self.spec_width() && 0 <= y < self.spec_height() ==> #[trigger] r.pixel(x, y)
                    == self.spec_color_at(x, y),
    ;
}

/// Errors on raw images.
#[derive(Debug)]
pub enum RawImageError {
    InvalidData { data: usize, width: u32, height: u32, channels: u32, expected: usize },
    InvalidWidth,
    InvalidHeight,
    RawImageMissing,
    ZeroWidth,
    ZeroHeight,
    Io(std::io::Error),
    Encoding(::image::ImageError),
}

/// An RGB image with 8 bits per channel, stored row by row.
#[derive(Debug)]
pub struct RawImage {
    data: Vec<u8>,
    width: u32,
    height: u32,
}

proof fn lemma_pixel_in_bounds(w: int, h: int, x: int, y: int)
    by (nonlinear_arith)
    requires
        0 <= x < w,
        0 <= y < h,
    ensures
        0 <= y * w + x < w * h,
        0 <= pixel_offset(w, x, y),
        pixel_offset(w, x, y) + 2 < w * h * 3,
{
    assert(y * w + x < (y + 1) * w);
    assert((y + 1) * w <= h * w);
}

impl RawImage {
    /// The bytes of the image, three per pixel, row by row.
    pub closed spec fn bytes(&self) -> Seq<u8> {
        self.data@
    }

    /// Width of the image, in pixels.
    pub closed spec fn cols(&self) -> nat {
        self.width as nat
    }

    /// Height of the image, in pixels.
    pub closed spec fn rows(&self) -> nat {
        self.height as nat
    }

    /// The color at `(x, y)` where that is inside the image, read from its
    /// three bytes, row by row; none elsewhere.
    pub open spec fn pixel(&self, x: int, y: int) -> Option<Color> {
        if 0 <= x < self.cols() && 0 <= y < self.rows() {
            Some(color_of_bytes(self.bytes(), pixel_offset(self.cols() as int, x, y)))
        } else {
            None
        }
    }

    /// The bytes hold three per pixel, and their number fits in a `u32`.
    pub open spec fn valid(&self) -> bool {
        &&& self.bytes().len() == self.cols() * self.rows() * 3
        &&& self.cols() * self.rows() * 3 <= u32::MAX
    }

    /// Every raw image is valid; `use_type_invariant` gives it of a raw image
    /// held in executable code.
    #[verifier::type_invariant]
    spec fn inv(&self) -> bool {
        self.valid()
    }



    /// Builds a raw image from its bytes, three per pixel, row by row.
    /// Fails where the data does not fit the dimensions, and where a
    /// dimension is zero.
    pub fn from_raw_parts(data: Vec<u8>, width: u32, height: u32) -> (r: Result<
        RawImage,
        RawImageError,
    >)
        requires
            width * height * 3 <= u32::MAX,
        ensures
            (r is Ok) <==> (data@.len() == width * height * 3 && width > 0 && height > 0),
            r matches Ok(img) ==> {
                &&& img.valid()
                &&& img.bytes() == data@
                &&& img.cols() == width
                &&& img.rows() == height
            },
            (data@.len() != width * height * 3) ==> r == Err::<RawImage, RawImageError>(
                RawImageError::InvalidData {
                    data: data@.len() as usize,
                    width,
                    height,
                    channels: CHANNELS,
                    expected: (width * height * 3) as usize,
                },
            ),
            (data@.len() == width * height * 3 && width == 0) ==> r == Err::<
                RawImage,
                RawImageError,
            >(RawImageError::ZeroWidth),
            (data@.len() == width * height * 3 && width > 0 && height == 0) ==> r == Err::<
                RawImage,
                RawImageError,
            >(RawImageError::ZeroHeight),
    {
        let expected = (width * height * CHANNELS) as usize;
        if data.len() != expected {
            return Err(
                RawImageError::InvalidData {
                    data: data.len(),
                    width,
                    height,
                    channels: CHANNELS,
                    expected,
                },
            );
        } else if width == 0 {
            return Err(RawImageError::ZeroWidth);
        } else if height == 0 {
            return Err(RawImageError::ZeroHeight);
        }
        Ok(RawImage { data, width, height })
    }

    /// Returns the (width, height) of the image, in pixels.
    pub fn get_dimensions(&self) -> (r: (u32, u32))
        ensures
            r.0 == self.cols(),
            r.1 == self.rows(),
    {
        (self.width, self.height)
    }

    /// The debug text of the image: its dimensions, its number of channels,
    /// and its bytes where there are at most 32 of them, else their number.
    pub open spec fn spec_debug(&self) -> Seq<char> {
        "RawImage { width: "@ + decimal(self.cols()) + ", height: "@ + decimal(self.rows())
            + ", channels: 3, data: "@ + (if self.bytes().len() > 32 {
            "\"["@ + decimal(self.bytes().len()) + " bytes]\""@
        } else {
            byte_list(self.bytes())
        }) + " }"@
    }

    /// Returns the debug text of the image.
    pub fn debug_string(&self) -> (s: String)
        ensures
            s@ == self.spec_debug(),
    {
        let mut s = String::from_str("RawImage { width: ");
        push_decimal(&mut s, self.width as u64);
        s.append(", height: ");
        push_decimal(&mut s, self.height as u64);
        s.append(", channels: 3, data: ");
        let ghost mid = s@;
        if self.data.len() > 32 {
            s.append("\"[");
            push_decimal(&mut s, self.data.len() as u64);
            s.append(" bytes]\"");
        } else {
            push_byte_list(&mut s, self.data.as_slice());
        }
        s.append(" }");
        assert(s@ =~= self.spec_debug());
        s
    }

    /// Encodes this image as PNG, and frames its base64 text in the escape
    /// sequences of the kitty terminal graphics protocol, ready to be written
    /// to a terminal.
    /// Succeeds exactly where both dimensions are non-zero; on failure the
    /// error is the encoder's, as `Encoding`.
    pub fn kitty_bytes(&self) -> (r: Result<Vec<u8>, RawImageError>)
        ensures
            (r is Ok) <==> (self.cols() > 0 && self.rows() > 0),
            r matches Ok(v) ==> v@ == kitty_stream(
                base64_standard(png_rgb8(self.bytes(), self.cols() as u32, self.rows() as u32)),
            ),
            r matches Err(e) ==> e is Encoding,
    {
        proof {
            use_type_invariant(self);
        }
        match encode_png_rgb8(self.data.as_slice(), self.width, self.height) {
            Ok(png) => Ok(kitty_from_png(png.as_slice())),
            Err(e) => Err(RawImageError::Encoding(e)),
        }
    }

    /// Encodes this image as PNG, and cuts its base64 text into the pieces, in
    /// order, that send it to a terminal with the kitty graphics protocol:
    /// for each chunk, its opening escape sequence, its `m` flag, `;`, the
    /// chunk and the closing sequence; then a new line. Succeeds exactly where
    /// both dimensions are non-zero; on failure the error is the encoder's, as
    /// `Encoding`.
    pub fn kitty_writes(&self) -> (r: Result<Vec<Vec<u8>>, RawImageError>)
        ensures
            (r is Ok) <==> (self.cols() > 0 && self.rows() > 0),
            r matches Ok(v) ==> v@.map_values(|p: Vec<u8>| p@) == kitty_pieces(
                base64_standard(png_rgb8(self.bytes(), self.cols() as u32, self.rows() as u32)),
            ),
            r matches Err(e) ==> e is Encoding,
    {
        proof {
            use_type_invariant(self);
        }
        match encode_png_rgb8(self.data.as_slice(), self.width, self.height) {
            Ok(png) => Ok(kitty_pieces_from_png(png.as_slice())),
            Err(e) => Err(RawImageError::Encoding(e)),
        }
    }
}

impl Image for RawImage {
    open spec fn spec_width(&self) -> nat {
        self.cols()
    }

    open spec fn spec_height(&self) -> nat {
        self.rows()
    }

    open spec fn spec_color_at(&self, x: int, y: int) -> Option<Color> {
        self.pixel(x, y)
    }

    /// A raw image is always valid, by its type invariant.
    open spec fn wf(&self) -> bool {
        true
    }

    open spec fn can_get(&self, x: int, y: int) -> bool {
        true
    }

    open spec fn can_get_unchecked(&self, x: int, y: int) -> bool {
        0 <= x < self.cols() && 0 <= y < self.rows()
    }

    open spec fn can_export(&self) -> bool {
        true
    }

    open spec fn can_width(&self) -> bool {
        true
    }

    open spec fn can_height(&self) -> bool {
        true
    }

    fn width(&self) -> (r: u32) {
        self.width
    }

    fn height(&self) -> (r: u32) {
        self.height
    }

    fn color_at(&self, x: u32, y: u32) -> (r: Option<Color>)
        ensures
            r is Some <==> (x < self.cols() && y < self.rows()),
    {
        if x < self.width && y < self.height {
            Some(self.color_at_unchecked(x, y))
        } else {
            None
        }
    }

    fn color_at_unchecked(&self, x: u32, y: u32) -> (r: Color) {
        proof {
            use_type_invariant(self);
            lemma_pixel_in_bounds(self.width as int, self.height as int, x as int, y as int);
        }
        let off = ((y * self.width + x) * CHANNELS) as usize;
        Color::new(self.data[off], self.data[off + 1], self.data[off + 2])
    }

    fn to_raw_image(&self) -> (r: RawImage)
        ensures
            r.bytes() == self.bytes(),
            r.cols() == self.cols(),
            r.rows() == self.rows(),
    {
        proof {
            use_type_invariant(self);
        }
        let mut data: Vec<u8> = Vec::with_capacity(self.data.len());
        let mut i: usize = 0;
        while i < self.data.len()
            invariant
                i <= self.data@.len(),
                data@ == self.data@.subrange(0, i as int),
            decreases self.data@.len() - i,
        {
            data.push(self.data[i]);
            i = i + 1;
        }
        assert(data@ == self.data@);
        RawImage { data, width: self.width, height: self.height }
    }
}

impl Clone for RawImage {
    /// A copy of the image: same dimensions, same bytes.
    fn clone(&self) -> (r: Self)
        ensures
            r.bytes() == self.bytes(),
            r.cols() == self.cols(),
            r.rows() == self.rows(),
    {
        self.to_raw_image()
    }
}

/// A rectangular window on an image.
pub struct ImageView<'i, T: Image> {
    inner: &'i T,
    xmin: u32,
    xmax: u32,
    ymin: u32,
    ymax: u32,
}

impl<'i, T: Image> ImageView<'i, T> {
    /// The image this view is a window on.
    pub closed spec fn source(&self) -> T {
        *self.inner
    }

    /// The bounds of the window, `(xmin, xmax, ymin, ymax)`.
    pub closed spec fn bounds(&self) -> (u32, u32, u32, u32) {
        (self.xmin, self.xmax, self.ymin, self.ymax)
    }
}

impl<'i, T: Image> Image for ImageView<'i, T> {
    /// The width of the window; a window whose horizontal range is reversed
    /// is empty.
    open spec fn spec_width(&self) -> nat {
        if self.bounds().0 <= self.bounds().1 {
            (self.bounds().1 - self.bounds().0) as nat
        } else {
            0
        }
    }

    /// The height of the window; a window whose vertical range is reversed is
    /// empty.
    open spec fn spec_height(&self) -> nat {
        if self.bounds().2 <= self.bounds().3 {
            (self.bounds().3 - self.bounds().2) as nat
        } else {
            0
        }
    }

    /// Inside the window, the color of the source at the same place; none
    /// outside the window.
    open spec fn spec_color_at(&self, x: int, y: int) -> Option<Color> {
        if 0 <= x < self.spec_width() && 0 <= y < self.spec_height() {
            self.source().spec_color_at(x + self.bounds().0, y + self.bounds().2)
        } else {
            None
        }
    }

    open spec fn wf(&self) -> bool {
        self.source().wf()
    }

    open spec fn can_get(&self, x: int, y: int) -> bool {
        (0 <= x < self.spec_width() && 0 <= y < self.spec_height()) ==> self.source().can_get(
            x + self.bounds().0,
            y + self.bounds().2,
        )
    }

    open spec fn can_get_unchecked(&self, x: int, y: int) -> bool {
        &&& 0 <= x < self.spec_width()
        &&& 0 <= y < self.spec_height()
        &&& self.source().can_get_unchecked(x + self.bounds().0, y + self.bounds().2)
    }

    /// Both ranges are in order, the bytes fit in a `u32`, and every color
    /// of the window is there to read.
    open spec fn can_export(&self) -> bool {
        &&& self.can_width()
        &&& self.can_height()
        &&& self.spec_width() * self.spec_height() * 3 <= u32::MAX
        &&& forall|x: int, y: int|
            0 <= x < self.spec_width() && 0 <= y < self.spec_height() ==> #[trigger] self.can_get_unchecked(x, y)
    }

    /// The horizontal range is in order.
    open spec fn can_width(&self) -> bool {
        self.bounds().0 <= self.bounds().1
    }

    /// The vertical range is in order.
    open spec fn can_height(&self) -> bool {
        self.bounds().2 <= self.bounds().3
    }

    fn width(&self) -> (r: u32) {
        self.xmax - self.xmin
    }

    fn height(&self) -> (r: u32) {
        self.ymax - self.ymin
    }

    fn color_at(&self, x: u32, y: u32) -> (r: Option<Color>) {
        if self.xmin <= self.xmax && x < self.xmax - self.xmin && self.ymin <= self.ymax && y
            < self.ymax - self.ymin {
            self.inner.color_at(x + self.xmin, y + self.ymin)
        } else {
            None
        }
    }

    fn color_at_unchecked(&self, x: u32, y: u32) -> (r: Color) {
        self.inner.color_at_unchecked(x + self.xmin, y + self.ymin)
    }

    fn to_raw_image(&self) -> (r: RawImage) {
        let w = self.width();
        let h = self.height();
        let mut data: Vec<u8> = Vec::with_capacity((w * h * CHANNELS) as usize);
        let mut y: u32 = 0;
        while y < h
            invariant
                self.wf(),
                self.can_export(),
                w == self.spec_width(),
                h == self.spec_height(),
                y <= h,
                data@.len() == (y * w) * 3,
                forall|xx: int, yy: int|
                    #![trigger self.spec_color_at(xx, yy)]
                    0 <= xx < w && 0 <= yy < y ==> self.spec_color_at(xx, yy) == Some(
                        color_of_bytes(data@, pixel_offset(w as int, xx, yy)),
                    ),
            decreases h - y,
        {
            let mut x: u32 = 0;
            while x < w
                invariant
                    self.wf(),
                    self.can_export(),
                    w == self.spec_width(),
                    h == self.spec_height(),
                    y < h,
                    x <= w,
                    data@.len() == (y * w + x) * 3,
                    forall|xx: int, yy: int|
                        #![trigger self.spec_color_at(xx, yy)]
                        0 <= xx < w && 0 <= yy < h && (yy < y || (yy == y && xx < x))
                            ==> self.spec_color_at(xx, yy) == Some(
                            color_of_bytes(data@, pixel_offset(w as int, xx, yy)),
                        ),
                decreases w - x,
            {
                assert(self.can_get_unchecked(x as int, y as int));
                let c = self.color_at_unchecked(x, y);
                let ghost before = data@;
                data.push(c.red);
                data.push(c.green);
                data.push(c.blue);
                proof {
                    assert forall|xx: int, yy: int|
                        0 <= xx < w && 0 <= yy < h && (yy < y || (yy == y && xx < x + 1))
                            implies #[trigger] self.spec_color_at(xx, yy) == Some(
                            color_of_bytes(data@, pixel_offset(w as int, xx, yy)),
                        ) by {
                        if yy == y && xx == x {
                        } else {
                            lemma_earlier_pixel(w as int, xx, yy, x as int, y as int);
                            assert(color_of_bytes(data@, pixel_offset(w as int, xx, yy))
                                == color_of_bytes(before, pixel_offset(w as int, xx, yy)));
                        }
                    }
                }
                x = x + 1;
            }
            proof {
                assert((y + 1) * w == y * w + w) by (nonlinear_arith);
            }
            y = y + 1;
        }
        proof {
            assert(h * w == w * h) by (nonlinear_arith);
        }
        let r = RawImage { data, width: w, height: h };
        assert forall|x: int, y: int|
            0 <= x < self.spec_width() && 0 <= y < self.spec_height() implies #[trigger] r.pixel(x, y)
                == self.spec_color_at(x, y) by {
            assert(self.spec_color_at(x, y) == Some(color_of_bytes(r.data@, pixel_offset(w as int, x, y))));
        }
        r
    }
}

/// A pixel before `(x, y)` in row order lies wholly before the bytes of `(x, y)`.
proof fn lemma_earlier_pixel(w: int, xx: int, yy: int, x: int, y: int)
    by (nonlinear_arith)
    requires
        0 <= xx < w,
        0 <= x < w,
        0 <= yy <= y,
        yy < y || xx < x,
    ensures
        0 <= pixel_offset(w, xx, yy),
        pixel_offset(w, xx, yy) + 3 <= pixel_offset(w, x, y),
{
    if yy < y {
        assert(yy * w + xx < (yy + 1) * w);
        assert((yy + 1) * w <= y * w);
    }
}

/// Every byte offset of an image of `w` times `h` pixels falls in one pixel:
/// offset `i` is channel `i % 3` of the pixel at `((i / 3) % w, (i / 3) / w)`.
proof fn lemma_offset_decompose(i: int, w: int, h: int)
    requires
        0 <= i < w * h * 3,
        0 < w,
    ensures
        0 <= (i / 3) % w < w,
        0 <= (i / 3) / w < h,
        0 <= i % 3 < 3,
        i == pixel_offset(w, (i / 3) % w, (i / 3) / w) + i % 3,
{
    let p = i / 3;
    let c = i % 3;
    lemma_fundamental_div_mod(i, 3);
    lemma_mod_pos_bound(i, 3);
    assert(0 <= p < w * h) by (nonlinear_arith)
        requires
            i == 3 * p + c,
            0 <= c < 3,
            0 <= i < w * h * 3,
    ;
    let x = p % w;
    let y = p / w;
    lemma_fundamental_div_mod(p, w);
    lemma_mod_pos_bound(p, w);
    assert(0 <= y < h) by (nonlinear_arith)
        requires
            p == w * y + x,
            0 <= x < w,
            0 <= p < w * h,
            0 < w,
    ;
    assert(i == (y * w + x) * 3 + c) by (nonlinear_arith)
        requires
            i == 3 * p + c,
            p == w * y + x,
    ;
}

/// A raw image is determined by its dimensions and its colors: two images
/// with the same dimensions and the same color at every pixel hold the same
/// bytes.
pub proof fn lemma_colors_determine_image(a: RawImage, b: RawImage)
    requires
        a.valid(),
        b.valid(),
        a.cols() == b.cols(),
        a.rows() == b.rows(),
        forall|x: int, y: int|
            0 <= x < a.cols() && 0 <= y < a.rows() ==> #[trigger] a.pixel(x, y) == b.pixel(x, y),
    ensures
        a.bytes() == b.bytes(),
{
    let w = a.width as int;
    let h = a.height as int;
    assert forall|i: int| 0 <= i < a.data@.len() implies a.data@[i] == b.data@[i] by {
        if w == 0 {
            assert(w * h * 3 == 0) by (nonlinear_arith)
                requires
                    w == 0,
            ;
        } else {
            lemma_offset_decompose(i, w, h);
            let x = (i / 3) % w;
            let y = (i / 3) / w;
            lemma_pixel_in_bounds(w, h, x, y);
            assert(a.pixel(x, y) == b.pixel(x, y));
        }
    }
    assert(a.data@ =~= b.data@);
}

/// The view of a whole raw image shows that image: it has its dimensions and
/// its colors, it can be exported, and every raw image exported from it holds
/// the same bytes as the image.
pub proof fn lemma_full_view<'i>(img: RawImage, view: ImageView<'i, RawImage>)
    requires
        img.valid(),
        view.source() == img,
        view.bounds() == (0u32, img.cols() as u32, 0u32, img.rows() as u32),
    ensures
        view.wf(),
        view.can_export(),
        view.spec_width() == img.cols(),
        view.spec_height() == img.rows(),
        forall|x: int, y: int| #[trigger] view.spec_color_at(x, y) == img.pixel(x, y),
        forall|r: RawImage|
            r.valid() && r.cols() == img.cols() && r.rows() == img.rows() && (forall|x: int, y: int|
                0 <= x < img.cols() && 0 <= y < img.rows() ==> #[trigger] r.pixel(x, y)
                    == view.spec_color_at(x, y)) ==> #[trigger] r.bytes() == img.bytes(),
{
    assert forall|r: RawImage|
        r.valid() && r.cols() == img.cols() && r.rows() == img.rows() && (forall|x: int, y: int|
            0 <= x < img.cols() && 0 <= y < img.rows() ==> #[trigger] r.pixel(x, y)
                == view.spec_color_at(x, y)) implies #[trigger] r.bytes() == img.bytes() by {
        assert forall|x: int, y: int|
            0 <= x < r.cols() && 0 <= y < r.rows() implies #[trigger] r.pixel(x, y) == img.pixel(
            x,
            y,
        ) by {
            assert(r.pixel(x, y) == view.spec_color_at(x, y));
        }
        lemma_colors_determine_image(r, img);
    }
}

/// A view on a view shows the underlying image, offset by both windows,
/// where a place lies inside both windows; elsewhere it shows nothing.
pub proof fn lemma_nested_view<'a, 'b, T: Image>(outer: ImageView<'b, ImageView<'a, T>>)
    ensures
        forall|x: int, y: int|
            #[trigger] outer.spec_color_at(x, y) == if 0 <= x < outer.spec_width() && 0 <= y
                < outer.spec_height() && x + outer.bounds().0 < outer.source().spec_width() && y
                + outer.bounds().2 < outer.source().spec_height() {
                outer.source().source().spec_color_at(
                    x + outer.bounds().0 + outer.source().bounds().0,
                    y + outer.bounds().2 + outer.source().bounds().2,
                )
            } else {
                None
            },
{
}

/// Taking rectangular views on images.
pub trait ImageViewExt: Image {
    /// A view on the window `x` times `y` of this image.
    fn wrap(&self, x: Range<u32>, y: Range<u32>) -> (r: ImageView<'_, Self>)
        ensures
            r.source() == *self,
            r.bounds() == (x.start, x.end, y.start, y.end),
    ;
}

impl<T: Image> ImageViewExt for T {
    fn wrap(&self, x: Range<u32>, y: Range<u32>) -> (r: ImageView<'_, Self>) {
        ImageView { inner: self, xmin: x.start, xmax: x.end, ymin: y.start, ymax: y.end }
    }
}

} // verus!
